//! The parsing service client: request addresses and the reading of the
//! service's replies. The application performs the HTTP requests, the
//! polling and the download.
use vstd::prelude::*;
use crate::json::{display_at, json_pointer_display, json_pointer_node, node_at, str_at, str_at_v, JsonKind};
use crate::text::{all_chars, chars_of, ends_with, ends_with_v, eq_v, is_digit};

verus! {

/// Client of the parsing service (precision extract API, v4).
#[derive(Clone, Debug)]
pub struct MinerUClient {
    pub key: String,
    pub base: String,
}

pub open spec fn service_base() -> Seq<char> {
    "https://mineru.net/api/v4"@
}

impl MinerUClient {
    pub fn new(key: String) -> (r: Self)
        ensures
            r.key == key,
            r.base@ == service_base(),
    {
        let mut base = String::new();
        base.append("https://mineru.net/api/v4");
        MinerUClient { key, base }
    }

    /// Value of the `Authorization` header.
    pub fn auth_header(&self) -> (r: String)
        ensures
            r@ == "Bearer "@ + self.key@,
    {
        let mut s = String::new();
        s.append("Bearer ");
        s.append(self.key.as_str());
        s
    }

    /// Where upload links are requested.
    pub fn upload_links_url(&self) -> (r: String)
        ensures
            r@ == self.base@ + "/file-urls/batch"@,
    {
        let mut s = String::new();
        s.append(self.base.as_str());
        s.append("/file-urls/batch");
        s
    }

    /// Where the results of a batch are polled.
    pub fn results_url(&self, batch_id: &str) -> (r: String)
        ensures
            r@ == self.base@ + "/extract-results/batch/"@ + batch_id@,
    {
        let mut s = String::new();
        s.append(self.base.as_str());
        s.append("/extract-results/batch/");
        s.append(batch_id);
        s
    }
}

/// The reply's `code` is the integer 0.
pub open spec fn code_ok(body: Seq<char>) -> bool {
    let n = json_pointer_node(body, "/code"@);
    n.0 == JsonKind::Scalar && n.1 == "0"@
}

pub open spec fn service_error(body: Seq<char>) -> Seq<char> {
    "MinerU 错误: "@ + json_pointer_display(body, "/msg"@)
}

pub open spec fn str_or_empty(o: Option<Seq<char>>) -> Seq<char> {
    match o {
        Some(s) => s,
        None => Seq::empty(),
    }
}

fn code_ok_v(body: &str) -> (r: bool)
    ensures
        r == code_ok(body@),
{
    let n = node_at(body, &chars_of("/code"));
    n.kind == JsonKind::Scalar && eq_v(&chars_of(n.text.as_str()), &chars_of("0"))
}

fn service_error_v(body: &str) -> (r: String)
    ensures
        r@ == service_error(body@),
{
    let mut s = String::new();
    s.append("MinerU 错误: ");
    let d = display_at(body, &chars_of("/msg"));
    s.append(d.as_str());
    s
}

fn str_or_empty_v(body: &str, ptr: &str) -> (r: String)
    ensures
        r@ == str_or_empty(str_at(body@, ptr@)),
{
    match str_at_v(body, &chars_of(ptr)) {
        Some(s) => s,
        None => String::new(),
    }
}

/// The reply to an upload-link request: the batch id and the upload URL,
/// or why there are none.
pub open spec fn upload_reply(body: Seq<char>) -> Result<(Seq<char>, Seq<char>), Seq<char>> {
    if !code_ok(body) {
        Err(service_error(body))
    } else {
        let batch = str_or_empty(str_at(body, "/data/batch_id"@));
        let url = str_or_empty(str_at(body, "/data/file_urls/0"@));
        if batch.len() == 0 || url.len() == 0 {
            Err("上传信息缺失（请检查 API Key 与配额）"@)
        } else {
            Ok((batch, url))
        }
    }
}

pub fn read_upload_reply(body: &str) -> (r: Result<(String, String), String>)
    ensures
        match r {
            Ok((b, u)) => upload_reply(body@) == Ok::<(Seq<char>, Seq<char>), Seq<char>>((b@, u@)),
            Err(m) => upload_reply(body@) == Err::<(Seq<char>, Seq<char>), Seq<char>>(m@),
        },
{
    if !code_ok_v(body) {
        return Err(service_error_v(body));
    }
    let batch = str_or_empty_v(body, "/data/batch_id");
    let url = str_or_empty_v(body, "/data/file_urls/0");
    if chars_of(batch.as_str()).len() == 0 || chars_of(url.as_str()).len() == 0 {
        let mut m = String::new();
        m.append("上传信息缺失（请检查 API Key 与配额）");
        return Err(m);
    }
    Ok((batch, url))
}

/// Where a polled batch stands.
pub enum PollState {
    /// Parsed: the address of the result archive, if the reply holds one.
    Done(Option<String>),
    /// The service gave up: the error message.
    Failed(String),
    /// Still running: `pages done/pages in all`.
    Running(String),
}

/// A non-negative integer of the reply as text, `0` otherwise.
pub open spec fn count_text(body: Seq<char>, ptr: Seq<char>) -> Seq<char> {
    let n = json_pointer_node(body, ptr);
    if n.0 == JsonKind::Scalar && n.1.len() > 0 && all_chars(n.1, |c: char| is_digit(c)) {
        n.1
    } else {
        "0"@
    }
}

/// What a poll reply says.
pub enum PollView {
    Done(Option<Seq<char>>),
    Failed(Seq<char>),
    Running(Seq<char>),
}

pub open spec fn poll_reply(body: Seq<char>) -> Result<PollView, Seq<char>> {
    if !code_ok(body) {
        Err(service_error(body))
    } else {
        let state = str_or_empty(str_at(body, "/data/extract_result/0/state"@));
        if state == "done"@ {
            Ok(PollView::Done(str_at(body, "/data/extract_result/0/full_zip_url"@)))
        } else if state == "failed"@ {
            Ok(
                PollView::Failed(
                    "解析失败: "@ + match str_at(body, "/data/extract_result/0/err_msg"@) {
                        Some(m) => m,
                        None => "未知错误"@,
                    },
                ),
            )
        } else {
            Ok(
                PollView::Running(
                    count_text(body, "/data/extract_result/0/extract_progress/extracted_pages"@)
                        + "/"@ + count_text(
                        body,
                        "/data/extract_result/0/extract_progress/total_pages"@,
                    ),
                ),
            )
        }
    }
}

fn count_text_v(body: &str, ptr: &str) -> (r: String)
    ensures
        r@ == count_text(body@, ptr@),
{
    let n = node_at(body, &chars_of(ptr));
    let t = chars_of(n.text.as_str());
    let mut ok = n.kind == JsonKind::Scalar && t.len() > 0;
    let mut i: usize = 0;
    while i < t.len()
        invariant
            i <= t.len(),
            ok == (n.kind == JsonKind::Scalar && t.len() > 0 && forall|j: int| 0 <= j < i ==> is_digit(#[trigger] t@[j])),
        decreases t.len() - i,
    {
        if !('0' <= t[i] && t[i] <= '9') {
            ok = false;
        }
        i += 1;
    }
    if ok {
        n.text
    } else {
        let mut s = String::new();
        s.append("0");
        s
    }
}

/// Read a poll reply: done (with the archive address), failed (with the
/// service's message) or still running (with the page progress).
pub fn read_poll_reply(body: &str) -> (r: Result<PollState, String>)
    ensures
        match r {
            Err(m) => poll_reply(body@) == Err::<PollView, Seq<char>>(m@),
            Ok(PollState::Done(u)) => poll_reply(body@) == Ok::<PollView, Seq<char>>(
                PollView::Done(
                    match u {
                        Some(s) => Some(s@),
                        None => None,
                    },
                ),
            ),
            Ok(PollState::Failed(m)) => poll_reply(body@) == Ok::<PollView, Seq<char>>(PollView::Failed(m@)),
            Ok(PollState::Running(p)) => poll_reply(body@) == Ok::<PollView, Seq<char>>(PollView::Running(p@)),
        },
{
    if !code_ok_v(body) {
        return Err(service_error_v(body));
    }
    let state = chars_of(str_or_empty_v(body, "/data/extract_result/0/state").as_str());
    if eq_v(&state, &chars_of("done")) {
        Ok(PollState::Done(str_at_v(body, &chars_of("/data/extract_result/0/full_zip_url"))))
    } else if eq_v(&state, &chars_of("failed")) {
        let mut m = String::new();
        m.append("解析失败: ");
        match str_at_v(body, &chars_of("/data/extract_result/0/err_msg")) {
            Some(e) => m.append(e.as_str()),
            None => m.append("未知错误"),
        }
        Ok(PollState::Failed(m))
    } else {
        let mut p = count_text_v(body, "/data/extract_result/0/extract_progress/extracted_pages");
        p.append("/");
        let t = count_text_v(body, "/data/extract_result/0/extract_progress/total_pages");
        p.append(t.as_str());
        Ok(PollState::Running(p))
    }
}

/// The first archive entry whose name ends in `.md`.
pub fn pick_markdown(names: &Vec<String>) -> (r: Option<String>)
    ensures
        match r {
            Some(n) => exists|i: int|
                0 <= i < names.len() && names@[i]@ == n@ && ends_with(n@, ".md"@) && forall|j: int|
                    0 <= j < i ==> !ends_with(#[trigger] names@[j]@, ".md"@),
            None => forall|j: int| 0 <= j < names.len() ==> !ends_with(#[trigger] names@[j]@, ".md"@),
        },
{
    let suffix = chars_of(".md");
    let mut i: usize = 0;
    while i < names.len()
        invariant
            i <= names.len(),
            suffix@ == ".md"@,
            forall|j: int| 0 <= j < i ==> !ends_with(#[trigger] names@[j]@, ".md"@),
        decreases names.len() - i,
    {
        if ends_with_v(&chars_of(names[i].as_str()), &suffix) {
            return Some(names[i].clone());
        }
        i += 1;
    }
    None
}

} // verus!
