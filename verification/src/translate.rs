//! Translation: error classification, image references, post-processing of
//! translated text, prompts, and the retry policy of a single translation.
use vstd::prelude::*;
use crate::json::{str_at, str_at_v};
use crate::segment::keep_nonempty;
use crate::text::{
    append_str, append_v, occurs_at, chars_of, contains, contains_v, decimal, decimal_v, eq_v, find_from,
    find_v, join, join_v, lemma_find_from_props, lines, lines_v, push_chars, slice_v, starts_with,
    starts_with_v, string_of, trim, trim_start, trim_start_v, trim_v, views, ws,
};

pub use crate::segment::{Segment, split_markdown};

verus! {

// ---------------------------------------------------------------------------
// Errors
// ---------------------------------------------------------------------------

/// Structured translation error: the front end tells unreachable network,
/// model-side errors and configuration problems apart by `category`
/// (`network` | `llm` | `config` | `internal` | `cancelled`).
#[derive(Clone, Debug)]
pub struct TranslateError {
    pub category: String,
    pub message: String,
    pub hint: String,
    pub retryable: bool,
}

impl TranslateError {
    pub(crate) fn new(category: &str, message: String, hint: &str) -> (r: Self)
        ensures
            r.category@ == category@,
            r.message == message,
            r.hint@ == hint@,
            !r.retryable,
    {
        let mut c = String::new();
        c.append(category);
        let mut h = String::new();
        h.append(hint);
        TranslateError { category: c, message, hint: h, retryable: false }
    }

    /// Cancellation by the user (not a failure).
    pub fn cancelled() -> (r: Self)
        ensures
            r.category@ == "cancelled"@,
            r.message@ == "已取消"@,
            r.hint@ == "已完成的段落会保留，可再次点击继续"@,
            !r.retryable,
    {
        let mut m = String::new();
        m.append("已取消");
        Self::new("cancelled", m, "已完成的段落会保留，可再次点击继续")
    }

    pub fn is_cancelled(&self) -> (r: bool)
        ensures
            r == (self.category@ == "cancelled"@),
    {
        let c = chars_of(self.category.as_str());
        eq_v(&c, &chars_of("cancelled"))
    }
}

/// How a request failed below HTTP.
#[derive(Clone, Copy, Debug, PartialEq, Eq, Structural)]
pub enum NetworkFailure {
    Timeout,
    Connect,
    Other,
}

pub open spec fn network_message(kind: NetworkFailure, detail: Seq<char>) -> Seq<char> {
    match kind {
        NetworkFailure::Timeout => "请求超时: "@ + detail,
        NetworkFailure::Connect => "无法连接到 API 服务器: "@ + detail,
        NetworkFailure::Other => "网络请求失败: "@ + detail,
    }
}

pub open spec fn network_hint(kind: NetworkFailure) -> Seq<char> {
    match kind {
        NetworkFailure::Timeout => "网络连接不稳定或 API 响应过慢。请检查网络后重试"@,
        NetworkFailure::Connect => "可能的原因：① 本机未联网或网络受限；② API 地址（Base URL）填写错误。请检查网络与设置页配置"@,
        NetworkFailure::Other => "可能的原因：① 本机未联网或网络受限；② 域名无法解析（DNS）。请检查网络后重试"@,
    }
}

/// Classification of a failure below HTTP (`detail` is the transport
/// error's text).
pub fn classify_network_error(kind: NetworkFailure, detail: &str) -> (r: TranslateError)
    ensures
        r.category@ == "network"@,
        r.message@ == network_message(kind, detail@),
        r.hint@ == network_hint(kind),
        !r.retryable,
{
    let mut m = String::new();
    match kind {
        NetworkFailure::Timeout => m.append("请求超时: "),
        NetworkFailure::Connect => m.append("无法连接到 API 服务器: "),
        NetworkFailure::Other => m.append("网络请求失败: "),
    }
    m.append(detail);
    let hint = match kind {
        NetworkFailure::Timeout => "网络连接不稳定或 API 响应过慢。请检查网络后重试",
        NetworkFailure::Connect => "可能的原因：① 本机未联网或网络受限；② API 地址（Base URL）填写错误。请检查网络与设置页配置",
        NetworkFailure::Other => "可能的原因：① 本机未联网或网络受限；② 域名无法解析（DNS）。请检查网络后重试",
    };
    TranslateError::new("network", m, hint)
}

/// The error detail carried by an OpenAI-compatible error body: the first
/// string among `error.message`, `error.code`, `message` and `error`; else
/// the trimmed body (cut to 200 characters plus `…`); `None` when the body
/// is blank.
pub open spec fn llm_error_detail(body: Seq<char>) -> Option<Seq<char>> {
    if str_at(body, "/error/message"@) is Some {
        str_at(body, "/error/message"@)
    } else if str_at(body, "/error/code"@) is Some {
        str_at(body, "/error/code"@)
    } else if str_at(body, "/message"@) is Some {
        str_at(body, "/message"@)
    } else if str_at(body, "/error"@) is Some {
        str_at(body, "/error"@)
    } else {
        let t = trim(body);
        if t.len() > 0 {
            Some(
                if t.len() > 200 {
                    t.take(200).push('…')
                } else {
                    t
                },
            )
        } else {
            None
        }
    }
}

/// Extract the error detail from an OpenAI-compatible JSON error body.
pub fn extract_llm_error_detail(body: &str) -> (r: Option<String>)
    ensures
        match r {
            Some(s) => llm_error_detail(body@) == Some(s@),
            None => llm_error_detail(body@) is None,
        },
{
    if let Some(s) = str_at_v(body, &chars_of("/error/message")) {
        return Some(s);
    }
    if let Some(s) = str_at_v(body, &chars_of("/error/code")) {
        return Some(s);
    }
    if let Some(s) = str_at_v(body, &chars_of("/message")) {
        return Some(s);
    }
    if let Some(s) = str_at_v(body, &chars_of("/error")) {
        return Some(s);
    }
    let t = trim_v(&chars_of(body));
    if t.len() > 0 {
        if t.len() > 200 {
            let mut c = slice_v(&t, 0, 200);
            c.push('…');
            Some(string_of(&c))
        } else {
            Some(string_of(&t))
        }
    } else {
        None
    }
}

/// The message and hint when a model reply holds no content: worded for a
/// translation or for another request.
pub open spec fn missing_content(translation: bool) -> (Seq<char>, Seq<char>) {
    if translation {
        ("响应缺少翻译内容"@, "可能的问题：模型未按预期返回翻译结果。可尝试更换模型，或检查内容是否超出模型支持范围"@)
    } else {
        ("响应缺少内容"@, "可能的问题：模型未按预期返回结果。可尝试更换模型，或检查内容是否超出模型支持范围"@)
    }
}

/// Read a successful chat-completion reply (its JSON text): the content of
/// the first choice's message, or a model-side error when it has none.
pub fn read_chat_reply(body: &str, translation: bool) -> (r: Result<String, TranslateError>)
    ensures
        match r {
            Ok(t) => str_at(body@, "/choices/0/message/content"@) == Some(t@),
            Err(e) => str_at(body@, "/choices/0/message/content"@) is None && e.category@ == "llm"@
                && e.message@ == missing_content(translation).0 && e.hint@ == missing_content(
                translation,
            ).1 && !e.retryable,
        },
{
    match str_at_v(body, &chars_of("/choices/0/message/content")) {
        Some(t) => Ok(t),
        None => {
            let mut m = String::new();
            if translation {
                m.append("响应缺少翻译内容");
                Err(TranslateError::new("llm", m, "可能的问题：模型未按预期返回翻译结果。可尝试更换模型，或检查内容是否超出模型支持范围"))
            } else {
                m.append("响应缺少内容");
                Err(TranslateError::new("llm", m, "可能的问题：模型未按预期返回结果。可尝试更换模型，或检查内容是否超出模型支持范围"))
            }
        },
    }
}

pub open spec fn http_hint(status: u16) -> Seq<char> {
    if status == 400 {
        "可能的问题：请求参数有误，通常是内容超出模型最大长度。可尝试减少单次翻译的段落，或更换支持更长上下文的模型"@
    } else if status == 401 {
        "可能的问题：API Key 无效或已过期。请到「设置 → API 配置」核对并更新 Key"@
    } else if status == 403 {
        "可能的问题：该 Key 没有此模型的访问权限，或账户余额不足。请检查套餐权限与账户余额"@
    } else if status == 404 {
        "可能的问题：API 地址（Base URL）或模型名称拼写错误，或该模型不存在。请核对设置页配置"@
    } else if status == 429 {
        "可能的问题：请求频率超过接口限流。请稍等片刻后重试"@
    } else if status >= 500 {
        "可能的问题：API 服务端临时故障或网关错误。请稍后重试"@
    } else {
        "未知的 API 错误，请将错误详情反馈给管理员"@
    }
}

pub open spec fn http_message(status: u16, body: Seq<char>) -> Seq<char> {
    "API 错误 HTTP "@ + decimal(status as nat) + match llm_error_detail(body) {
        Some(d) => ": "@ + d,
        None => Seq::empty(),
    }
}

/// HTTP status of a failed model call → model-side error with an
/// explanation; rate limits and server errors may be retried.
pub fn classify_http_error(status: u16, body: &str) -> (r: TranslateError)
    ensures
        r.category@ == "llm"@,
        r.message@ == http_message(status, body@),
        r.hint@ == http_hint(status),
        r.retryable == (status == 429 || status >= 500),
{
    let detail = extract_llm_error_detail(body);
    let mut m = String::new();
    m.append("API 错误 HTTP ");
    let d = decimal_v(status as u64);
    push_chars(&mut m, &d);
    match detail {
        Some(d) => {
            m.append(": ");
            m.append(d.as_str());
        },
        None => {},
    }
    let hint = if status == 400 {
        "可能的问题：请求参数有误，通常是内容超出模型最大长度。可尝试减少单次翻译的段落，或更换支持更长上下文的模型"
    } else if status == 401 {
        "可能的问题：API Key 无效或已过期。请到「设置 → API 配置」核对并更新 Key"
    } else if status == 403 {
        "可能的问题：该 Key 没有此模型的访问权限，或账户余额不足。请检查套餐权限与账户余额"
    } else if status == 404 {
        "可能的问题：API 地址（Base URL）或模型名称拼写错误，或该模型不存在。请核对设置页配置"
    } else if status == 429 {
        "可能的问题：请求频率超过接口限流。请稍等片刻后重试"
    } else if status >= 500 {
        "可能的问题：API 服务端临时故障或网关错误。请稍后重试"
    } else {
        "未知的 API 错误，请将错误详情反馈给管理员"
    };
    let mut err = TranslateError::new("llm", m, hint);
    if status == 429 || status >= 500 {
        err.retryable = true;
    }
    err
}

// ---------------------------------------------------------------------------
// Vision model configuration
// ---------------------------------------------------------------------------

/// Optional vision model used to describe figures.
#[derive(Clone, Debug)]
pub struct VisionConfig {
    pub base_url: String,
    pub api_key: String,
    pub model: String,
}

impl VisionConfig {
    /// Configured when base URL, key and model are all non-blank.
    pub fn enabled(&self) -> (r: bool)
        ensures
            r == (trim(self.base_url@).len() > 0 && trim(self.api_key@).len() > 0 && trim(
                self.model@,
            ).len() > 0),
    {
        trim_v(&chars_of(self.base_url.as_str())).len() > 0 && trim_v(
            &chars_of(self.api_key.as_str()),
        ).len() > 0 && trim_v(&chars_of(self.model.as_str())).len() > 0
    }
}

impl Default for VisionConfig {
    fn default() -> (r: Self)
        ensures
            r.base_url@ == Seq::<char>::empty(),
            r.api_key@ == Seq::<char>::empty(),
            r.model@ == Seq::<char>::empty(),
    {
        VisionConfig { base_url: String::new(), api_key: String::new(), model: String::new() }
    }
}

/// MIME type the vision request declares for an image file extension
/// (already lower-cased).
pub open spec fn vision_mime(ext: Seq<char>) -> Seq<char> {
    if ext == "png"@ {
        "image/png"@
    } else if ext == "gif"@ {
        "image/gif"@
    } else if ext == "webp"@ {
        "image/webp"@
    } else if ext == "bmp"@ {
        "image/bmp"@
    } else {
        "image/jpeg"@
    }
}

/// Images larger than this are not sent to the vision model.
pub const VISION_MAX_BYTES: usize = 12582912;

/// Whether an image of `len` bytes can be described: not empty and not
/// above `VISION_MAX_BYTES`.
pub fn vision_accepts(len: usize) -> (r: bool)
    ensures
        r == (len > 0 && len <= VISION_MAX_BYTES),
{
    len > 0 && len <= VISION_MAX_BYTES
}

pub fn vision_mime_for(ext: &str) -> (r: &'static str)
    ensures
        r@ == vision_mime(ext@),
{
    let e = chars_of(ext);
    if eq_v(&e, &chars_of("png")) {
        "image/png"
    } else if eq_v(&e, &chars_of("gif")) {
        "image/gif"
    } else if eq_v(&e, &chars_of("webp")) {
        "image/webp"
    } else if eq_v(&e, &chars_of("bmp")) {
        "image/bmp"
    } else {
        "image/jpeg"
    }
}

// ---------------------------------------------------------------------------
// Image references
// ---------------------------------------------------------------------------

/// The image paths referenced by `![..](path)` in `md[start..]`, appended to
/// `out` in order of appearance: trimmed, without empty paths, `http`
/// addresses and repeats.
pub open spec fn image_refs_from(md: Seq<char>, start: int, out: Seq<Seq<char>>) -> Seq<
    Seq<char>,
>
    decreases md.len() + 1 - start,
{
    if start < 0 || start > md.len() {
        out
    } else {
        match find_from(md, "!["@, start) {
            None => out,
            Some(img) => if img < start || img + 2 > md.len() {
                out
            } else {
                match find_from(md, "]("@, img + 2) {
                    Some(p) => match find_from(md, ")"@, p + 2) {
                        Some(q) => if p < img + 2 || q < p + 2 || q >= md.len() {
                            out
                        } else {
                            let path = trim(md.subrange(p + 2, q));
                            let out2 = if path.len() > 0 && !starts_with(path, "http"@)
                                && !out.contains(path) {
                                out.push(path)
                            } else {
                                out
                            };
                            image_refs_from(md, q + 1, out2)
                        },
                        None => image_refs_from(md, img + 2, out),
                    },
                    None => image_refs_from(md, img + 2, out),
                }
            }
        }
    }
}

fn contains_text(out: &Vec<Vec<char>>, p: &Vec<char>) -> (r: bool)
    ensures
        r == views(out@).contains(p@),
{
    let mut i: usize = 0;
    while i < out.len()
        invariant
            i <= out.len(),
            forall|k: int| 0 <= k < i ==> out@[k]@ != p@,
        decreases out.len() - i,
    {
        if eq_v(&out[i], p) {
            assert(views(out@)[i as int] == p@);
            return true;
        }
        i += 1;
    }
    proof {
        if views(out@).contains(p@) {
            let k = choose|k: int| 0 <= k < views(out@).len() && views(out@)[k] == p@;
            assert(out@[k]@ == p@);
        }
    }
    false
}

/// Collect the image paths referenced in Markdown (deduplicated, relative
/// paths only).
pub fn collect_image_refs(md: &str) -> (r: Vec<String>)
    ensures
        r.len() == image_refs_from(md@, 0, Seq::empty()).len(),
        forall|i: int| 0 <= i < r.len() ==> (#[trigger] r[i])@ == image_refs_from(md@, 0, Seq::empty())[i],
{
    let m = chars_of(md);
    let open = chars_of("![");
    let mid = chars_of("](");
    let close = chars_of(")");
    let mut out: Vec<Vec<char>> = Vec::new();
    let mut start: usize = 0;
    assert(views(out@) =~= Seq::<Seq<char>>::empty());
    proof {
        reveal_strlit("![");
        reveal_strlit("](");
        reveal_strlit(")");
    }
    loop
        invariant
            start <= m.len(),
            m@ == md@,
            open@ == "!["@,
            mid@ == "]("@,
            close@ == ")"@,
            image_refs_from(md@, 0, Seq::empty()) == image_refs_from(
                md@,
                start as int,
                views(out@),
            ),
        ensures
            image_refs_from(md@, 0, Seq::empty()) == views(out@),
        decreases m.len() + 1 - start,
    {
        proof {
            reveal_strlit("![");
            reveal_strlit("](");
            reveal_strlit(")");
            assert(open@.len() == 2 && mid@.len() == 2 && close@.len() == 1);
            lemma_find_from_props(m@, open@, start as int);
        }
        let img = match find_v(&m, &open, start) {
            None => break,
            Some(i) => i,
        };
        let after_open = img + 2;
        proof {
            lemma_find_from_props(m@, mid@, after_open as int);
        }
        match find_v(&m, &mid, after_open) {
            Some(p) => {
                let ps = p + 2;
                proof {
                    lemma_find_from_props(m@, close@, ps as int);
                }
                match find_v(&m, &close, ps) {
                    Some(q) => {
                        let path = trim_v(&slice_v(&m, ps, q));
                        if path.len() > 0 && !starts_with_v(&path, &chars_of("http"))
                            && !contains_text(&out, &path) {
                            let ghost before = out@;
                            out.push(path);
                            assert(views(out@) =~= views(before).push(path@));
                        }
                        start = q + 1;
                    },
                    None => {
                        start = after_open;
                    },
                }
            },
            None => {
                start = after_open;
            },
        }
    }
    let mut r: Vec<String> = Vec::new();
    let mut k: usize = 0;
    while k < out.len()
        invariant
            k <= out.len(),
            r.len() == k,
            forall|i: int| 0 <= i < k ==> (#[trigger] r[i])@ == out@[i]@,
        decreases out.len() - k,
    {
        r.push(string_of(&out[k]));
        k += 1;
    }
    r
}

/// The first image path referenced in `text`, unless empty or `http`.
pub open spec fn image_path_of(text: Seq<char>) -> Option<Seq<char>> {
    match find_from(text, "!["@, 0) {
        None => None,
        Some(i) => match find_from(text, "]("@, i + 2) {
            None => None,
            Some(p) => match find_from(text, ")"@, p + 2) {
                None => None,
                Some(q) => {
                    let path = trim(text.subrange(p + 2, q));
                    if path.len() == 0 || starts_with(path, "http"@) {
                        None
                    } else {
                        Some(path)
                    }
                },
            },
        },
    }
}

/// The first image path of a caption segment.
pub fn extract_image_path(text: &str) -> (r: Option<String>)
    ensures
        match r {
            Some(s) => image_path_of(text@) == Some(s@),
            None => image_path_of(text@) is None,
        },
{
    let t = chars_of(text);
    let open = chars_of("![");
    let mid = chars_of("](");
    let close = chars_of(")");
    proof {
        reveal_strlit("![");
        reveal_strlit("](");
        reveal_strlit(")");
        assert(open@.len() == 2 && mid@.len() == 2 && close@.len() == 1);
        lemma_find_from_props(t@, open@, 0);
    }
    let i = match find_v(&t, &open, 0) {
        None => return None,
        Some(i) => i,
    };
    assert(find_from(t@, open@, 0) == Some(i as int));
    assert(occurs_at(t@, open@, i as int));
    assert(open@.len() == 2);
    assert(i + 2 <= t.len());
    proof {
        lemma_find_from_props(t@, mid@, i + 2);
    }
    let p = match find_v(&t, &mid, i + 2) {
        None => return None,
        Some(p) => p,
    };
    proof {
        lemma_find_from_props(t@, close@, p + 2);
    }
    let q = match find_v(&t, &close, p + 2) {
        None => return None,
        Some(q) => q,
    };
    let path = trim_v(&slice_v(&t, p + 2, q));
    if path.len() == 0 || starts_with_v(&path, &chars_of("http")) {
        None
    } else {
        Some(string_of(&path))
    }
}

/// `text` with every complete `![..](..)` reference removed from the front.
pub open spec fn strip_image_refs(rest: Seq<char>) -> Seq<char>
    decreases rest.len(),
{
    match find_from(rest, "!["@, 0) {
        None => rest,
        Some(i) => match find_from(rest, "]("@, i + 2) {
            None => rest,
            Some(p) => match find_from(rest, ")"@, p + 2) {
                None => rest,
                Some(q) => if 0 <= q < rest.len() && q >= p + 2 && p >= i + 2 {
                    strip_image_refs(rest.subrange(q + 1, rest.len() as int))
                } else {
                    rest
                },
            },
        },
    }
}

/// The segment holds nothing but Markdown image references.
pub open spec fn pure_image_ref(text: Seq<char>) -> bool {
    trim(strip_image_refs(text)).len() == 0
}

pub fn is_pure_image_ref(text: &str) -> (r: bool)
    ensures
        r == pure_image_ref(text@),
{
    let mut rest = chars_of(text);
    let open = chars_of("![");
    let mid = chars_of("](");
    let close = chars_of(")");
    proof {
        reveal_strlit("![");
        reveal_strlit("](");
        reveal_strlit(")");
    }
    loop
        invariant
            strip_image_refs(text@) == strip_image_refs(rest@),
            open@ == "!["@,
            mid@ == "]("@,
            close@ == ")"@,
        ensures
            strip_image_refs(text@) == rest@,
        decreases rest.len(),
    {
        proof {
            reveal_strlit("![");
            reveal_strlit("](");
            reveal_strlit(")");
            assert(open@.len() == 2 && mid@.len() == 2 && close@.len() == 1);
            lemma_find_from_props(rest@, open@, 0);
        }
        let i = match find_v(&rest, &open, 0) {
            None => break,
            Some(i) => i,
        };
        proof {
            lemma_find_from_props(rest@, mid@, i + 2);
        }
        let p = match find_v(&rest, &mid, i + 2) {
            None => break,
            Some(p) => p,
        };
        proof {
            lemma_find_from_props(rest@, close@, p + 2);
        }
        let q = match find_v(&rest, &close, p + 2) {
            None => break,
            Some(q) => q,
        };
        rest = slice_v(&rest, q + 1, rest.len());
    }
    trim_v(&rest).len() == 0
}

// ---------------------------------------------------------------------------
// Post-processing of translated text
// ---------------------------------------------------------------------------

/// Maximal runs of non-whitespace characters of `s[start..]`, the current
/// run having started at `from`.
pub open spec fn words_acc(s: Seq<char>, from: int, i: int) -> Seq<Seq<char>>
    decreases s.len() - i,
{
    if i < 0 || from < 0 || from > i || i >= s.len() {
        if 0 <= from < s.len() {
            seq![s.subrange(from, s.len() as int)]
        } else {
            Seq::empty()
        }
    } else if crate::text::is_ws(s[i]) {
        (if from < i {
            seq![s.subrange(from, i)]
        } else {
            Seq::empty()
        }) + words_acc(s, i + 1, i + 1)
    } else {
        words_acc(s, from, i + 1)
    }
}

/// `str::split_whitespace`.
pub open spec fn words(s: Seq<char>) -> Seq<Seq<char>> {
    words_acc(s, 0, 0)
}

pub fn words_v(s: &Vec<char>) -> (r: Vec<Vec<char>>)
    ensures
        views(r@) == words(s@),
{
    let mut r: Vec<Vec<char>> = Vec::new();
    let mut from: usize = 0;
    let mut i: usize = 0;
    while i < s.len()
        invariant
            from <= i <= s.len(),
            views(r@) + words_acc(s@, from as int, i as int) == words(s@),
        decreases s.len() - i,
    {
        if ws(s[i]) {
            if from < i {
                let w = slice_v(s, from, i);
                let ghost before = r@;
                r.push(w);
                proof {
                    assert(views(r@) =~= views(before).push(w@));
                    let rest = words_acc(s@, (i + 1) as int, (i + 1) as int);
                    assert(views(before) + (seq![w@] + rest) =~= views(r@) + rest);
                }
            } else {
                proof {
                    let rest = words_acc(s@, (i + 1) as int, (i + 1) as int);
                    assert(Seq::<Seq<char>>::empty() + rest =~= rest);
                }
            }
            from = i + 1;
        }
        i += 1;
    }
    if from < s.len() {
        let w = slice_v(s, from, s.len());
        let ghost before = r@;
        r.push(w);
        assert(views(r@) =~= views(before).push(w@));
        assert(views(before) + seq![w@] =~= views(r@));
    } else {
        assert(views(r@) + Seq::<Seq<char>>::empty() =~= views(r@));
    }
    r
}

/// What `normalize_translated` makes of a translation: tables and code are
/// trimmed, tables of contents keep one entry per line (hard breaks), and
/// everything else has its line breaks folded into single spaces.
pub open spec fn normalized(kind: Seq<char>, text: Seq<char>) -> Seq<char> {
    if kind == "table"@ || kind == "code"@ {
        trim(text)
    } else if kind == "toc"@ {
        join(keep_nonempty(lines(text).map_values(|l: Seq<char>| trim(l))), "  \n"@)
    } else {
        join(words(text), " "@)
    }
}

/// Normalize a translation according to the kind of its segment.
pub fn normalize_translated(kind: &str, text: &str) -> (r: String)
    ensures
        r@ == normalized(kind@, text@),
{
    let k = chars_of(kind);
    let t = chars_of(text);
    if eq_v(&k, &chars_of("table")) || eq_v(&k, &chars_of("code")) {
        string_of(&trim_v(&t))
    } else if eq_v(&k, &chars_of("toc")) {
        let ls = crate::segment::entry_lines_v(&t);
        string_of(&join_v(&ls, &chars_of("  \n")))
    } else {
        let ws = words_v(&t);
        string_of(&join_v(&ws, &chars_of(" ")))
    }
}

pub open spec fn caption_prefixes() -> Seq<&'static str> {
    seq!["Figure", "Fig.", "Figure ", "Table", "Tab.", "Schema", "Diagram", "Photo", "图", "表", "插图"]
}

/// The segment reads like a figure or table caption.
pub open spec fn caption_line(text: Seq<char>) -> bool {
    exists|i: int|
        0 <= i < caption_prefixes().len() && starts_with(
            trim_start(text),
            (#[trigger] caption_prefixes()[i])@,
        )
}

pub fn is_caption_line(text: &str) -> (r: bool)
    ensures
        r == caption_line(text@),
{
    let t = trim_start_v(&chars_of(text));
    let ps: Vec<&'static str> = vec![
        "Figure",
        "Fig.",
        "Figure ",
        "Table",
        "Tab.",
        "Schema",
        "Diagram",
        "Photo",
        "图",
        "表",
        "插图",
    ];
    assert(ps@ == caption_prefixes());
    let mut i: usize = 0;
    while i < ps.len()
        invariant
            i <= ps.len(),
            ps@ == caption_prefixes(),
            t@ == trim_start(text@),
            forall|k: int| 0 <= k < i ==> !starts_with(t@, (#[trigger] ps@[k])@),
        decreases ps.len() - i,
    {
        if starts_with_v(&t, &chars_of(ps[i])) {
            return true;
        }
        i += 1;
    }
    false
}

pub open spec fn meta_markers() -> Seq<&'static str> {
    seq![
        "请补充",
        "请提供",
        "请输入",
        "请告诉我",
        "我没有收到",
        "翻译要求",
        "正文内容",
        "完整文本",
        "无法翻译",
        "只提供了",
        "请您提供",
        "请发送",
        "请上传",
        "需要翻译的",
        "请重新发送",
        "我无法翻译",
        "仅包含图片引用",
        "没有需要翻译",
        "您提供的内容",
    ]
}

/// The model answered with a conversational or refusing reply instead of a
/// translation.
pub open spec fn meta_reply(text: Seq<char>) -> bool {
    exists|i: int|
        0 <= i < meta_markers().len() && contains(text, (#[trigger] meta_markers()[i])@)
}

pub fn looks_like_meta_reply(text: &str) -> (r: bool)
    ensures
        r == meta_reply(text@),
{
    let t = chars_of(text);
    let ms: Vec<&'static str> = vec![
        "请补充",
        "请提供",
        "请输入",
        "请告诉我",
        "我没有收到",
        "翻译要求",
        "正文内容",
        "完整文本",
        "无法翻译",
        "只提供了",
        "请您提供",
        "请发送",
        "请上传",
        "需要翻译的",
        "请重新发送",
        "我无法翻译",
        "仅包含图片引用",
        "没有需要翻译",
        "您提供的内容",
    ];
    assert(ms@ == meta_markers());
    let mut i: usize = 0;
    while i < ms.len()
        invariant
            i <= ms.len(),
            ms@ == meta_markers(),
            t@ == text@,
            forall|k: int| 0 <= k < i ==> !contains(t@, (#[trigger] ms@[k])@),
        decreases ms.len() - i,
    {
        if contains_v(&t, &chars_of(ms[i])) {
            return true;
        }
        i += 1;
    }
    false
}

} // verus!

verus! {

// ---------------------------------------------------------------------------
// Direction and translator configuration
// ---------------------------------------------------------------------------

/// Translation direction: English papers into Chinese (default) or Chinese
/// papers into English.
#[derive(Clone, Copy, Debug, PartialEq, Eq, Structural)]
pub enum TranslateDirection {
    EnToZh,
    ZhToEn,
}

impl Default for TranslateDirection {
    fn default() -> (r: Self)
        ensures
            r == TranslateDirection::EnToZh,
    {
        TranslateDirection::EnToZh
    }
}

impl TranslateDirection {
    /// `"zh_to_en"` selects Chinese → English; anything else the default.
    pub fn parse(s: &str) -> (r: Self)
        ensures
            r == (if s@ == "zh_to_en"@ {
                TranslateDirection::ZhToEn
            } else {
                TranslateDirection::EnToZh
            }),
    {
        if eq_v(&chars_of(s), &chars_of("zh_to_en")) {
            TranslateDirection::ZhToEn
        } else {
            TranslateDirection::EnToZh
        }
    }
}

/// OpenAI-compatible translation client configuration.
pub struct Translator {
    pub base_url: String,
    pub api_key: String,
    pub model: String,
    /// (term, translation) pairs the translation must follow.
    pub glossary: Vec<(String, String)>,
    /// Image path → description by the vision model.
    pub vision_notes: Vec<(String, String)>,
    pub direction: TranslateDirection,
}

pub open spec fn pairs_view(v: Seq<(String, String)>) -> Seq<(Seq<char>, Seq<char>)> {
    v.map_values(|p: (String, String)| (p.0@, p.1@))
}

/// Target language name in Chinese and in English.
pub open spec fn target_lang_spec(d: TranslateDirection) -> (Seq<char>, Seq<char>) {
    match d {
        TranslateDirection::ZhToEn => ("英文"@, "English"@),
        TranslateDirection::EnToZh => ("简体中文"@, "Chinese"@),
    }
}

pub open spec fn base_prompt(d: TranslateDirection) -> Seq<char> {
    match d {
        TranslateDirection::ZhToEn => "You are a professional academic paper translation assistant. Translate the user's content into English. Rules:1) Preserve Markdown formatting, table structure, code blocks and math formulas (LaTeX $...$) unchanged;2) Keep proper nouns, institution names, personal names and citation numbers [n] unchanged;3) Translate accurately in academic style, strictly following the glossary;4) The translation must follow the register and grammar of English academic writing: avoid direct word-for-word translation"@ + " from Chinese (Chinglish),reorder sentences according to English conventions, split or merge long sentences where appropriate, and use standard scholarly expressions(e.g. \"This paper proposes\" \"The results show that\"). It should read as if written by a native English-speaking scholar;5) Table-of-contents / list-like content (one entry per line) must be translated entry by entry and keep one entry per line;keep the numbering and page numbers unchanged, never merge entries into one paragraph."@,
        TranslateDirection::EnToZh => "你是一名专业的学术论文翻译助手。将用户提供的内容翻译为简体中文。规则：1) 完整保留 Markdown 格式、表格结构、代码块与数学公式（LaTeX $...$）不变；2) 保留英文专有名词、机构名、人名与文献引用编号 [n] 不变；3) 翻译应准确、学术化，术语严格按术语表执行；4) 译文须符合中文学术论文的语体与语法：避免欧化句式（少用“被”字被动句、避免英文式长定语从句前置），按中文语序重组句子，长句可适当拆分；使用中文学术惯用表达（如“本文提出”“研究表明”“值得注意的是”），读起来应像中文母语学者撰写，而不是逐词直译的翻译腔；5) 目录、清单、逐条排列的内容（每条一行）必须逐条翻译并保持一条一行，编号与页码原样保留，禁止把多条合并成一段。"@,
    }
}

/// One `term = translation` line per glossary entry.
pub open spec fn glossary_lines(g: Seq<(Seq<char>, Seq<char>)>) -> Seq<char>
    decreases g.len(),
{
    if g.len() == 0 {
        Seq::empty()
    } else {
        glossary_lines(g.drop_last()) + g.last().0 + " = "@ + g.last().1 + "\n"@
    }
}

/// The system prompt: direction-specific rules, then the glossary if any.
pub open spec fn system_prompt_spec(d: TranslateDirection, g: Seq<(Seq<char>, Seq<char>)>) -> Seq<
    char,
> {
    base_prompt(d) + if g.len() == 0 {
        Seq::empty()
    } else {
        "\n\n术语表（必须严格遵守）：\n"@ + glossary_lines(g)
    }
}

pub open spec fn heading_prompt(d: TranslateDirection) -> Seq<char> {
    match d {
        TranslateDirection::ZhToEn => "这是论文的章节标题。请直接输出其英文译名（如 \"8.4. 讨论\" → \"8.4. Discussion\"），只输出译名本身，不要输出任何其他内容。\n\n"@,
        TranslateDirection::EnToZh => "这是论文的章节标题。请直接输出其中文译名（如 \"8.4. Discussion\" → \"8.4. 讨论\"），只输出译名本身，不要输出任何其他内容。\n\n"@,
    }
}

pub open spec fn reference_prompt(d: TranslateDirection) -> Seq<char> {
    "这是一条参考文献条目。请仅将其中的论文或书籍标题翻译为"@ + target_lang_spec(d).0
        + "；作者名、期刊名、年份、卷期、页码、DOI、出版社及编号一律保持原样。若条目本身不含标题（如纯作者+期刊），则整条保持原文。只输出处理后的条目本身，不要添加任何解释或标注。\n\n"@
}

pub open spec fn note_prompt(n: Seq<char>) -> Seq<char> {
    "【图片自动分析】"@ + n
        + "\n\n该段为图注或表注。请结合图片分析准确理解内容，但只忠实翻译图注文字本身，不得增删或添加分析内容；若包含 Markdown 图片语法（![...](...)）请原样保留。\n\n"@
}

pub open spec fn image_ref_prompt() -> Seq<char> {
    "该段包含图片引用，请保持 Markdown 图片语法不变，仅翻译其余文字。\n\n"@
}

pub open spec fn only_translation_prompt() -> Seq<char> {
    "请只输出上面内容的译文本身，不要输出任何解释、提示、要求补充内容、规则说明或其他与译文无关的文字。\n\n"@
}

pub open spec fn reminder_prompt() -> Seq<char> {
    "【再次提醒】你上一次的输出不是译文。必须只输出上面内容的译文本身，不要解释、不要提示、不要索要内容、不要说明规则。\n\n"@
}

/// The user message sent for one segment.
pub open spec fn request_content(
    d: TranslateDirection,
    text: Seq<char>,
    kind: Seq<char>,
    note: Option<Seq<char>>,
) -> Seq<char> {
    let c0 = if kind == "heading"@ {
        heading_prompt(d) + text
    } else {
        text
    };
    let c1 = if kind == "reference"@ {
        reference_prompt(d) + text
    } else {
        c0
    };
    let c2 = if kind == "image_caption"@ || caption_line(text) {
        match note {
            Some(n) => note_prompt(n) + c1,
            None => if contains(text, "!["@) {
                image_ref_prompt() + c1
            } else {
                c1
            },
        }
    } else {
        c1
    };
    only_translation_prompt() + c2
}

pub open spec fn meta_error_message(attempt: nat) -> Seq<char> {
    "模型返回了非译文内容（第 "@ + decimal(attempt + 1) + " 次尝试）"@
}

/// State of one segment's translation between model calls.
pub struct TranslateCall {
    /// Calls made so far (0, 1 or 2 before the next call).
    pub attempt: u32,
    /// The user message of the next call.
    pub content: String,
    /// The error to report if the retries run out.
    pub last_err: TranslateError,
}

/// How a segment's translation starts.
pub enum TranslateStart {
    /// No model call is needed: the result.
    Done(String),
    /// Call the model with this state.
    Call(TranslateCall),
}

/// What to do after a model call.
pub enum TranslateAction {
    /// The translation is over.
    Finish(Result<String, TranslateError>),
    /// Sleep this many seconds, then call the model again with the updated
    /// state.
    Retry(u64),
}

impl Translator {
    /// Target language name in Chinese and in English.
    pub fn target_lang(&self) -> (r: (&'static str, &'static str))
        ensures
            r.0@ == target_lang_spec(self.direction).0,
            r.1@ == target_lang_spec(self.direction).1,
    {
        match self.direction {
            TranslateDirection::ZhToEn => ("英文", "English"),
            TranslateDirection::EnToZh => ("简体中文", "Chinese"),
        }
    }

    /// System prompt of the translation requests.
    pub fn system_prompt(&self) -> (r: String)
        ensures
            r@ == system_prompt_spec(self.direction, pairs_view(self.glossary@)),
    {
        let mut s = String::new();
        match self.direction {
            TranslateDirection::ZhToEn => {
                s.append("You are a professional academic paper translation assistant. Translate the user's content into English. Rules:1) Preserve Markdown formatting, table structure, code blocks and math formulas (LaTeX $...$) unchanged;2) Keep proper nouns, institution names, personal names and citation numbers [n] unchanged;3) Translate accurately in academic style, strictly following the glossary;4) The translation must follow the register and grammar of English academic writing: avoid direct word-for-word translation");
                s.append(" from Chinese (Chinglish),reorder sentences according to English conventions, split or merge long sentences where appropriate, and use standard scholarly expressions(e.g. \"This paper proposes\" \"The results show that\"). It should read as if written by a native English-speaking scholar;5) Table-of-contents / list-like content (one entry per line) must be translated entry by entry and keep one entry per line;keep the numbering and page numbers unchanged, never merge entries into one paragraph.");
            },
            TranslateDirection::EnToZh => s.append("你是一名专业的学术论文翻译助手。将用户提供的内容翻译为简体中文。规则：1) 完整保留 Markdown 格式、表格结构、代码块与数学公式（LaTeX $...$）不变；2) 保留英文专有名词、机构名、人名与文献引用编号 [n] 不变；3) 翻译应准确、学术化，术语严格按术语表执行；4) 译文须符合中文学术论文的语体与语法：避免欧化句式（少用“被”字被动句、避免英文式长定语从句前置），按中文语序重组句子，长句可适当拆分；使用中文学术惯用表达（如“本文提出”“研究表明”“值得注意的是”），读起来应像中文母语学者撰写，而不是逐词直译的翻译腔；5) 目录、清单、逐条排列的内容（每条一行）必须逐条翻译并保持一条一行，编号与页码原样保留，禁止把多条合并成一段。"),
        }
        let ghost base = s@;
        if self.glossary.len() > 0 {
            s.append("\n\n术语表（必须严格遵守）：\n");
            let ghost head = s@;
            let ghost g = pairs_view(self.glossary@);
            let mut i: usize = 0;
            assert(g.subrange(0, 0) =~= Seq::<(Seq<char>, Seq<char>)>::empty());
            assert(head + glossary_lines(g.subrange(0, 0)) =~= head);
            while i < self.glossary.len()
                invariant
                    i <= self.glossary.len(),
                    g == pairs_view(self.glossary@),
                    s@ == head + glossary_lines(g.subrange(0, i as int)),
                decreases self.glossary.len() - i,
            {
                let (t, tr) = (&self.glossary[i].0, &self.glossary[i].1);
                s.append(t.as_str());
                s.append(" = ");
                s.append(tr.as_str());
                s.append("\n");
                proof {
                    let a = g.subrange(0, i + 1);
                    assert(a.drop_last() =~= g.subrange(0, i as int));
                    assert(a.last() == (t@, tr@));
                }
                i += 1;
            }
            assert(g.subrange(0, self.glossary.len() as int) =~= g);
        } else {
            assert(s@ =~= base + Seq::<char>::empty());
        }
        s
    }

    /// Start translating one segment: a segment that holds only image
    /// references is kept as it is; otherwise the first model call is set up.
    pub fn start_translate(&self, text: &str, kind: &str, note: Option<&str>) -> (r:
        TranslateStart)
        ensures
            match r {
                TranslateStart::Done(s) => kind@ == "image_caption"@ && pure_image_ref(text@)
                    && s@ == text@,
                TranslateStart::Call(c) => !(kind@ == "image_caption"@ && pure_image_ref(text@))
                    && c.attempt == 0 && c.content@ == request_content(
                    self.direction,
                    text@,
                    kind@,
                    match note {
                        Some(n) => Some(n@),
                        None => None,
                    },
                ),
            },
    {
        let k = chars_of(kind);
        let is_caption_kind = eq_v(&k, &chars_of("image_caption"));
        if is_caption_kind && is_pure_image_ref(text) {
            let mut s = String::new();
            s.append(text);
            return TranslateStart::Done(s);
        }
        let mut content = String::new();
        if eq_v(&k, &chars_of("heading")) {
            match self.direction {
                TranslateDirection::ZhToEn => content.append("这是论文的章节标题。请直接输出其英文译名（如 \"8.4. 讨论\" → \"8.4. Discussion\"），只输出译名本身，不要输出任何其他内容。\n\n"),
                TranslateDirection::EnToZh => content.append("这是论文的章节标题。请直接输出其中文译名（如 \"8.4. Discussion\" → \"8.4. 讨论\"），只输出译名本身，不要输出任何其他内容。\n\n"),
            }
            content.append(text);
        } else {
            content.append(text);
        }
        if eq_v(&k, &chars_of("reference")) {
            let (lang, _) = self.target_lang();
            let mut c = String::new();
            c.append("这是一条参考文献条目。请仅将其中的论文或书籍标题翻译为");
            c.append(lang);
            c.append("；作者名、期刊名、年份、卷期、页码、DOI、出版社及编号一律保持原样。若条目本身不含标题（如纯作者+期刊），则整条保持原文。只输出处理后的条目本身，不要添加任何解释或标注。\n\n");
            c.append(text);
            content = c;
        }
        if is_caption_kind || is_caption_line(text) {
            match note {
                Some(n) => {
                    let mut c = String::new();
                    c.append("【图片自动分析】");
                    c.append(n);
                    c.append("\n\n该段为图注或表注。请结合图片分析准确理解内容，但只忠实翻译图注文字本身，不得增删或添加分析内容；若包含 Markdown 图片语法（![...](...)）请原样保留。\n\n");
                    c.append(content.as_str());
                    content = c;
                },
                None => {
                    if contains_v(&chars_of(text), &chars_of("![")) {
                        let mut c = String::new();
                        c.append("该段包含图片引用，请保持 Markdown 图片语法不变，仅翻译其余文字。\n\n");
                        c.append(content.as_str());
                        content = c;
                    }
                },
            }
        }
        let mut c = String::new();
        c.append("请只输出上面内容的译文本身，不要输出任何解释、提示、要求补充内容、规则说明或其他与译文无关的文字。\n\n");
        c.append(content.as_str());
        let mut unknown = String::new();
        unknown.append("未知错误");
        TranslateStart::Call(
            TranslateCall {
                attempt: 0,
                content: c,
                last_err: TranslateError::new("llm", unknown, "请重试"),
            },
        )
    }

    /// Decide what follows a model call (at most three calls): a
    /// conversational reply is retried at once with a stronger reminder and
    /// finally replaced by the source text; a retryable error is retried after
    /// 1 s, then 2 s; any other error, and a proper translation, end the
    /// segment.
    pub fn after_reply(
        &self,
        text: &str,
        call: &mut TranslateCall,
        reply: Result<String, TranslateError>,
    ) -> (r: TranslateAction)
        requires
            old(call).attempt < 3,
        ensures
            r is Retry ==> final(call).attempt == old(call).attempt + 1 && final(call).attempt < 3,
            match reply {
                Ok(t) => if meta_reply(t@) {
                    &&& final(call).last_err.category@ == "llm"@
                    &&& final(call).last_err.message@ == meta_error_message(
                        old(call).attempt as nat,
                    )
                    &&& final(call).last_err.hint@ == "模型给出了对话性回复而非译文，已自动重试"@
                    &&& if old(call).attempt < 2 {
                        &&& r matches TranslateAction::Retry(0)
                        &&& final(call).attempt == old(call).attempt + 1
                        &&& final(call).content@ == reminder_prompt() + old(call).content@
                    } else {
                        r matches TranslateAction::Finish(Ok(s)) && s@ == text@
                    }
                } else {
                    r matches TranslateAction::Finish(Ok(s)) && s@ == t@
                },
                Err(e) => if !e.retryable {
                    r matches TranslateAction::Finish(Err(f)) && f == e
                } else if old(call).attempt < 2 {
                    &&& r matches TranslateAction::Retry(secs) && secs == if old(call).attempt
                        == 0 {
                        1u64
                    } else {
                        2u64
                    }
                    &&& final(call).attempt == old(call).attempt + 1
                    &&& final(call).content == old(call).content
                    &&& final(call).last_err == e
                } else {
                    r matches TranslateAction::Finish(Err(f)) && f.category == e.category
                        && f.message@ == "翻译失败（已重试 3 次）: "@ + e.message@ && f.hint
                        == e.hint && !f.retryable
                },
            },
    {
        let attempt = call.attempt;
        match reply {
            Ok(t) => {
                if looks_like_meta_reply(t.as_str()) {
                    let mut m = String::new();
                    m.append("模型返回了非译文内容（第 ");
                    let d = decimal_v((attempt + 1) as u64);
                    push_chars(&mut m, &d);
                    m.append(" 次尝试）");
                    call.last_err = TranslateError::new("llm", m, "模型给出了对话性回复而非译文，已自动重试");
                    if attempt < 2 {
                        let mut c = String::new();
                        c.append("【再次提醒】你上一次的输出不是译文。必须只输出上面内容的译文本身，不要解释、不要提示、不要索要内容、不要说明规则。\n\n");
                        c.append(call.content.as_str());
                        call.content = c;
                        call.attempt = attempt + 1;
                        return TranslateAction::Retry(0);
                    }
                    let mut s = String::new();
                    s.append(text);
                    return TranslateAction::Finish(Ok(s));
                }
                TranslateAction::Finish(Ok(t))
            },
            Err(e) => {
                if !e.retryable {
                    return TranslateAction::Finish(Err(e));
                }
                if attempt < 2 {
                    call.last_err = e;
                    call.attempt = attempt + 1;
                    return TranslateAction::Retry(
                        if attempt == 0 {
                            1
                        } else {
                            2
                        },
                    );
                }
                let mut m = String::new();
                m.append("翻译失败（已重试 3 次）: ");
                m.append(e.message.as_str());
                TranslateAction::Finish(
                    Err(
                        TranslateError {
                            category: e.category,
                            message: m,
                            hint: e.hint,
                            retryable: false,
                        },
                    ),
                )
            },
        }
    }
}

// ---------------------------------------------------------------------------
// Figure notes per segment
// ---------------------------------------------------------------------------

/// The first value stored under `key`.
pub open spec fn lookup(notes: Seq<(Seq<char>, Seq<char>)>, key: Seq<char>) -> Option<Seq<char>>
    decreases notes.len(),
{
    if notes.len() == 0 {
        None
    } else if notes[0].0 == key {
        Some(notes[0].1)
    } else {
        lookup(notes.subrange(1, notes.len() as int), key)
    }
}

pub open spec fn seg_pairs(segs: Seq<Segment>) -> Seq<(Seq<char>, Seq<char>)> {
    segs.map_values(|s: Segment| (s.kind@, s.content@))
}

/// The figure note in force after the segments `segs`: that of the image of
/// the last caption segment whose image path could be read.
pub open spec fn current_note(segs: Seq<(Seq<char>, Seq<char>)>, notes: Seq<(Seq<char>, Seq<char>)>) -> Option<Seq<char>>
    decreases segs.len(),
{
    if segs.len() == 0 {
        None
    } else if segs.last().0 == "image_caption"@ && image_path_of(segs.last().1) is Some {
        lookup(notes, image_path_of(segs.last().1)->0)
    } else {
        current_note(segs.drop_last(), notes)
    }
}

fn lookup_v(notes: &Vec<(String, String)>, key: &Vec<char>) -> (r: Option<String>)
    ensures
        match r {
            Some(s) => lookup(pairs_view(notes@), key@) == Some(s@),
            None => lookup(pairs_view(notes@), key@) is None,
        },
{
    let ghost nv = pairs_view(notes@);
    let mut i: usize = 0;
    assert(nv.subrange(0, nv.len() as int) =~= nv);
    while i < notes.len()
        invariant
            i <= notes.len(),
            nv == pairs_view(notes@),
            lookup(nv, key@) == lookup(nv.subrange(i as int, nv.len() as int), key@),
        decreases notes.len() - i,
    {
        let k = chars_of(notes[i].0.as_str());
        proof {
            let t = nv.subrange(i as int, nv.len() as int);
            assert(t.subrange(1, t.len() as int) =~= nv.subrange(i + 1, nv.len() as int));
            assert(t[0] == nv[i as int]);
        }
        if eq_v(&k, key) {
            let mut s = String::new();
            s.append(notes[i].1.as_str());
            return Some(s);
        }
        i += 1;
    }
    None
}

/// For each segment, the figure note that applies to it (the note of the
/// image referenced by the most recent caption segment).
pub fn segment_notes(segments: &Vec<Segment>, notes: &Vec<(String, String)>) -> (r: Vec<
    Option<String>,
>)
    ensures
        r.len() == segments.len(),
        forall|i: int|
            0 <= i < r.len() ==> match #[trigger] r[i] {
                Some(s) => current_note(
                    seg_pairs(segments@).take(i + 1),
                    pairs_view(notes@),
                ) == Some(s@),
                None => current_note(seg_pairs(segments@).take(i + 1), pairs_view(notes@)) is None,
            },
{
    let ghost sp = seg_pairs(segments@);
    let mut r: Vec<Option<String>> = Vec::new();
    let mut last: Option<String> = None;
    let mut i: usize = 0;
    assert(sp.take(0) =~= Seq::<(Seq<char>, Seq<char>)>::empty());
    while i < segments.len()
        invariant
            i <= segments.len(),
            sp == seg_pairs(segments@),
            r.len() == i,
            match last {
                Some(s) => current_note(sp.take(i as int), pairs_view(notes@)) == Some(s@),
                None => current_note(sp.take(i as int), pairs_view(notes@)) is None,
            },
            forall|j: int|
                0 <= j < i ==> match #[trigger] r[j] {
                    Some(s) => current_note(sp.take(j + 1), pairs_view(notes@)) == Some(s@),
                    None => current_note(sp.take(j + 1), pairs_view(notes@)) is None,
                },
        decreases segments.len() - i,
    {
        proof {
            assert(sp.take(i + 1).drop_last() =~= sp.take(i as int));
            assert(sp.take(i + 1).last() == sp[i as int]);
        }
        let k = chars_of(segments[i].kind.as_str());
        if eq_v(&k, &chars_of("image_caption")) {
            if let Some(p) = extract_image_path(segments[i].content.as_str()) {
                let pv = chars_of(p.as_str());
                last = lookup_v(notes, &pv);
            }
        }
        let cur = match &last {
            Some(s) => {
                let mut c = String::new();
                c.append(s.as_str());
                Some(c)
            },
            None => None,
        };
        r.push(cur);
        i += 1;
    }
    r
}

} // verus!

verus! {

pub open spec fn good_refs(out: Seq<Seq<char>>) -> bool {
    &&& forall|i: int, j: int| 0 <= i < j < out.len() ==> out[i] != out[j]
    &&& forall|i: int|
        0 <= i < out.len() ==> (#[trigger] out[i]).len() > 0 && !starts_with(out[i], "http"@)
}

proof fn lemma_image_refs_good(md: Seq<char>, start: int, out: Seq<Seq<char>>)
    requires
        good_refs(out),
    ensures
        good_refs(image_refs_from(md, start, out)),
    decreases md.len() + 1 - start,
{
    if start < 0 || start > md.len() {
    } else {
        match find_from(md, "!["@, start) {
            None => {},
            Some(img) => if img < start || img + 2 > md.len() {
            } else {
                match find_from(md, "]("@, img + 2) {
                    Some(p) => match find_from(md, ")"@, p + 2) {
                        Some(q) => if p < img + 2 || q < p + 2 || q >= md.len() {
                        } else {
                            let path = trim(md.subrange(p + 2, q));
                            if path.len() > 0 && !starts_with(path, "http"@) && !out.contains(path) {
                                let o2 = out.push(path);
                                assert forall|i: int, j: int| 0 <= i < j < o2.len() implies o2[i]
                                    != o2[j] by {
                                    if j == out.len() {
                                        assert(o2[i] == out[i]);
                                        assert(out.contains(out[i]));
                                    }
                                }
                                assert forall|i: int| 0 <= i < o2.len() implies (#[trigger] o2[i]).len()
                                    > 0 && !starts_with(o2[i], "http"@) by {
                                    if i < out.len() {
                                        assert(o2[i] == out[i]);
                                    }
                                }
                                lemma_image_refs_good(md, q + 1, o2);
                            } else {
                                lemma_image_refs_good(md, q + 1, out);
                            }
                        },
                        None => lemma_image_refs_good(md, img + 2, out),
                    },
                    None => lemma_image_refs_good(md, img + 2, out),
                }
            },
        }
    }
}


/// `x` is the trimmed text between a `](` and the next `)` after an `![`
/// in `md`.
pub open spec fn ref_path(md: Seq<char>, x: Seq<char>) -> bool {
    exists|img: int, p: int, q: int|
        #![trigger occurs_at(md, "!["@, img), occurs_at(md, "]("@, p), occurs_at(md, ")"@, q)]
        img + 2 <= p && p + 2 <= q < md.len() && occurs_at(md, "!["@, img) && occurs_at(md, "]("@, p)
            && occurs_at(md, ")"@, q) && x == trim(md.subrange(p + 2, q))
}

proof fn lemma_image_refs_sound(md: Seq<char>, start: int, out: Seq<Seq<char>>)
    ensures
        out.len() <= image_refs_from(md, start, out).len(),
        image_refs_from(md, start, out).take(out.len() as int) == out,
        forall|k: int|
            out.len() <= k < image_refs_from(md, start, out).len() ==> ref_path(
                md,
                #[trigger] image_refs_from(md, start, out)[k],
            ),
    decreases md.len() + 1 - start,
{
    if start < 0 || start > md.len() {
        assert(out.take(out.len() as int) =~= out);
    } else {
        lemma_find_from_props(md, "!["@, start);
        match find_from(md, "!["@, start) {
            None => {
                assert(out.take(out.len() as int) =~= out);
            },
            Some(img) => if img < start || img + 2 > md.len() {
                assert(out.take(out.len() as int) =~= out);
            } else {
                lemma_find_from_props(md, "]("@, img + 2);
                match find_from(md, "]("@, img + 2) {
                    Some(p) => {
                        lemma_find_from_props(md, ")"@, p + 2);
                        match find_from(md, ")"@, p + 2) {
                            Some(q) => if p < img + 2 || q < p + 2 || q >= md.len() {
                                assert(out.take(out.len() as int) =~= out);
                            } else {
                                let path = trim(md.subrange(p + 2, q));
                                if path.len() > 0 && !starts_with(path, "http"@) && !out.contains(path) {
                                    let o2 = out.push(path);
                                    lemma_image_refs_sound(md, q + 1, o2);
                                    let r = image_refs_from(md, q + 1, o2);
                                    assert(r.take(o2.len() as int).take(out.len() as int) =~= r.take(
                                        out.len() as int,
                                    ));
                                    assert(o2.take(out.len() as int) =~= out);
                                    assert(r[out.len() as int] == r.take(o2.len() as int)[out.len() as int]);
                                    assert(ref_path(md, path));
                                } else {
                                    lemma_image_refs_sound(md, q + 1, out);
                                }
                            },
                            None => lemma_image_refs_sound(md, img + 2, out),
                        }
                    },
                    None => lemma_image_refs_sound(md, img + 2, out),
                }
            },
        }
    }
}

/// Every collected image reference is the trimmed text between a `](` and
/// the next `)` that follow an `![` in the Markdown; none is empty, none is
/// a web address, and none is collected twice.
pub proof fn law_image_refs_sound(md: Seq<char>)
    ensures
        forall|k: int|
            0 <= k < image_refs_from(md, 0, Seq::empty()).len() ==> ref_path(
                md,
                #[trigger] image_refs_from(md, 0, Seq::empty())[k],
            ),
        good_refs(image_refs_from(md, 0, Seq::empty())),
{
    lemma_image_refs_sound(md, 0, Seq::empty());
    lemma_image_refs_good(md, 0, Seq::empty());
}

/// The paths of all image references of `md[start..]` in order, as the
/// scan reads them (trimmed, before any filtering).
pub open spec fn ref_paths(md: Seq<char>, start: int) -> Seq<Seq<char>>
    decreases md.len() + 1 - start,
{
    if start < 0 || start > md.len() {
        Seq::empty()
    } else {
        match find_from(md, "!["@, start) {
            None => Seq::empty(),
            Some(img) => if img < start || img + 2 > md.len() {
                Seq::empty()
            } else {
                match find_from(md, "]("@, img + 2) {
                    Some(p) => match find_from(md, ")"@, p + 2) {
                        Some(q) => if p < img + 2 || q < p + 2 || q >= md.len() {
                            Seq::empty()
                        } else {
                            seq![trim(md.subrange(p + 2, q))] + ref_paths(md, q + 1)
                        },
                        None => ref_paths(md, img + 2),
                    },
                    None => ref_paths(md, img + 2),
                }
            },
        }
    }
}

/// A path worth collecting: not empty and not a web address.
pub open spec fn usable_path(x: Seq<char>) -> bool {
    x.len() > 0 && !starts_with(x, "http"@)
}

/// `out` followed by the usable paths of `paths` not yet present, each once,
/// in order of first occurrence.
pub open spec fn add_paths(out: Seq<Seq<char>>, paths: Seq<Seq<char>>) -> Seq<Seq<char>>
    decreases paths.len(),
{
    if paths.len() == 0 {
        out
    } else {
        let out2 = if usable_path(paths[0]) && !out.contains(paths[0]) {
            out.push(paths[0])
        } else {
            out
        };
        add_paths(out2, paths.drop_first())
    }
}

proof fn lemma_refs_are_add_paths(md: Seq<char>, start: int, out: Seq<Seq<char>>)
    ensures
        image_refs_from(md, start, out) == add_paths(out, ref_paths(md, start)),
    decreases md.len() + 1 - start,
{
    if start < 0 || start > md.len() {
    } else {
        match find_from(md, "!["@, start) {
            None => {},
            Some(img) => if img < start || img + 2 > md.len() {
            } else {
                match find_from(md, "]("@, img + 2) {
                    Some(p) => match find_from(md, ")"@, p + 2) {
                        Some(q) => if p < img + 2 || q < p + 2 || q >= md.len() {
                        } else {
                            let path = trim(md.subrange(p + 2, q));
                            let out2 = if usable_path(path) && !out.contains(path) {
                                out.push(path)
                            } else {
                                out
                            };
                            lemma_refs_are_add_paths(md, q + 1, out2);
                            let ps = seq![path] + ref_paths(md, q + 1);
                            assert(ps[0] == path);
                            assert(ps.drop_first() =~= ref_paths(md, q + 1));
                        },
                        None => lemma_refs_are_add_paths(md, img + 2, out),
                    },
                    None => lemma_refs_are_add_paths(md, img + 2, out),
                }
            },
        }
    }
}

/// Position of the first occurrence of `x` in `paths` (its length when absent).
pub open spec fn first_index(paths: Seq<Seq<char>>, x: Seq<char>) -> int
    decreases paths.len(),
{
    if paths.len() == 0 {
        0
    } else if paths[0] == x {
        0
    } else {
        1 + first_index(paths.drop_first(), x)
    }
}

/// What `add_paths` gives: what was there stays first; every usable path
/// is present afterwards; each added path is usable, occurs in `paths` and
/// was not there before; and the added paths come in the order of their
/// first occurrences.
proof fn lemma_add_paths(out: Seq<Seq<char>>, paths: Seq<Seq<char>>)
    ensures
        out.len() <= add_paths(out, paths).len(),
        add_paths(out, paths).take(out.len() as int) == out,
        forall|i: int| 0 <= i < paths.len() && usable_path(paths[i]) ==> add_paths(out, paths).contains(
            #[trigger] paths[i],
        ),
        forall|k: int|
            out.len() <= k < add_paths(out, paths).len() ==> usable_path(#[trigger] add_paths(out, paths)[k])
                && paths.contains(add_paths(out, paths)[k]) && !out.contains(add_paths(out, paths)[k]),
        forall|k1: int, k2: int|
            out.len() <= k1 < k2 < add_paths(out, paths).len() ==> first_index(
                paths,
                #[trigger] add_paths(out, paths)[k1],
            ) < first_index(paths, #[trigger] add_paths(out, paths)[k2]),
    decreases paths.len(),
{
    let r = add_paths(out, paths);
    if paths.len() == 0 {
        assert(out.take(out.len() as int) =~= out);
    } else {
        let x = paths[0];
        let rest = paths.drop_first();
        let added = usable_path(x) && !out.contains(x);
        let out2 = if added {
            out.push(x)
        } else {
            out
        };
        lemma_add_paths(out2, rest);
        assert(r == add_paths(out2, rest));
        assert(r.take(out2.len() as int).take(out.len() as int) =~= r.take(out.len() as int));
        assert(out2.take(out.len() as int) =~= out);
        assert forall|i: int| 0 <= i < paths.len() && usable_path(paths[i]) implies r.contains(
            #[trigger] paths[i],
        ) by {
            if i == 0 {
                if out.contains(x) {
                    let k = choose|k: int| 0 <= k < out.len() && out[k] == x;
                    assert(r[k] == out[k]);
                } else {
                    assert(r[out.len() as int] == out2[out.len() as int]);
                }
            } else {
                assert(rest[i - 1] == paths[i]);
            }
        }
        // Every path added after `out2` differs from `x` and is found one
        // place later in `paths` than in `rest`.
        assert forall|k: int| out2.len() <= k < r.len() implies r[k] != x && first_index(paths, r[k])
            == 1 + first_index(rest, r[k]) by {
            assert(!out2.contains(r[k]) && usable_path(r[k]));
            if r[k] == x {
                if added {
                    assert(out2[out.len() as int] == x);
                }
            }
        }
        assert forall|k: int| out.len() <= k < r.len() implies usable_path(#[trigger] r[k]) && paths.contains(r[k])
            && !out.contains(r[k]) by {
            if k < out2.len() {
                assert(r[k] == out2[k]);
                assert(paths[0] == x);
            } else {
                assert(rest.contains(r[k]));
                let m = choose|m: int| 0 <= m < rest.len() && rest[m] == r[k];
                assert(paths[m + 1] == rest[m]);
                if out.contains(r[k]) {
                    let w = choose|w: int| 0 <= w < out.len() && out[w] == r[k];
                    assert(out2[w] == out[w]);
                }
            }
        }
        assert forall|k1: int, k2: int| out.len() <= k1 < k2 < r.len() implies first_index(
            paths,
            #[trigger] r[k1],
        ) < first_index(paths, #[trigger] r[k2]) by {
            if k1 < out2.len() {
                assert(r[k1] == out2[k1]);
                assert(r[k1] == x);
                assert(first_index(paths, x) == 0);
                assert(first_index(paths, r[k2]) == 1 + first_index(rest, r[k2]));
                lemma_first_index_nonneg(rest, r[k2]);
            } else {
                assert(first_index(paths, r[k1]) == 1 + first_index(rest, r[k1]));
                assert(first_index(paths, r[k2]) == 1 + first_index(rest, r[k2]));
            }
        }
    }
}

proof fn lemma_first_index_nonneg(paths: Seq<Seq<char>>, x: Seq<char>)
    ensures
        0 <= first_index(paths, x) <= paths.len(),
        paths.contains(x) ==> first_index(paths, x) < paths.len() && paths[first_index(paths, x)] == x,
    decreases paths.len(),
{
    if paths.len() > 0 && paths[0] != x {
        lemma_first_index_nonneg(paths.drop_first(), x);
        if paths.contains(x) {
            let m = choose|m: int| 0 <= m < paths.len() && paths[m] == x;
            assert(paths.drop_first()[m - 1] == x);
        }
    }
}

/// Law: `collect_image_refs` finds every usable reference. Reading the
/// references of the Markdown in order (`ref_paths`), every path that is
/// not empty and not a web address is collected, nothing else is, each
/// once, in the order in which the paths first occur.
pub proof fn law_image_refs_complete(md: Seq<char>)
    ensures
        image_refs_from(md, 0, Seq::empty()) == add_paths(Seq::empty(), ref_paths(md, 0)),
        forall|i: int|
            0 <= i < ref_paths(md, 0).len() && usable_path(ref_paths(md, 0)[i]) ==> image_refs_from(
                md,
                0,
                Seq::empty(),
            ).contains(#[trigger] ref_paths(md, 0)[i]),
        forall|k: int|
            0 <= k < image_refs_from(md, 0, Seq::empty()).len() ==> usable_path(
                #[trigger] image_refs_from(md, 0, Seq::empty())[k],
            ) && ref_paths(md, 0).contains(image_refs_from(md, 0, Seq::empty())[k]),
        forall|k1: int, k2: int|
            0 <= k1 < k2 < image_refs_from(md, 0, Seq::empty()).len() ==> first_index(
                ref_paths(md, 0),
                #[trigger] image_refs_from(md, 0, Seq::empty())[k1],
            ) < first_index(ref_paths(md, 0), #[trigger] image_refs_from(md, 0, Seq::empty())[k2]),
{
    lemma_refs_are_add_paths(md, 0, Seq::empty());
    lemma_add_paths(Seq::empty(), ref_paths(md, 0));
}

} // verus!
