use litdesk::translate::{
    classify_http_error, classify_network_error, collect_image_refs, extract_image_path,
    extract_llm_error_detail, is_caption_line, is_pure_image_ref, looks_like_meta_reply,
    normalize_translated, segment_notes, split_markdown, vision_accepts, vision_mime_for,
    NetworkFailure, TranslateAction, TranslateCall, TranslateDirection, TranslateError,
    TranslateStart, Translator, VisionConfig, VISION_MAX_BYTES,
};
use litdesk::html::{escape_html, inline_html};

#[test]
fn toc_block_is_detected_and_kept_per_line() {
    let md = "# 论文标题\n\n1. Introduction .... 3\n2. Methods .... 5\n3. Results .... 9\n\n正文段落内容。";
    let segs = split_markdown(md);
    let toc = segs.iter().find(|s| s.kind == "toc").expect("应识别出 toc 段");
    assert!(toc.content.contains("Introduction .... 3"));
    assert_eq!(
        toc.content.matches("  \n").count(),
        2,
        "三条目录之间应保留两条硬换行：{}",
        toc.content
    );
    assert!(segs.iter().any(|s| s.kind == "paragraph" && s.content.contains("正文段落")));
}

#[test]
fn normal_paragraph_is_not_treated_as_toc() {
    let md = "第一段内容，讲了一件很长的事情，并且描述了背景。\n第二段内容，继续讲方法与结果。\n第三段收尾。";
    let segs = split_markdown(md);
    assert!(segs.iter().all(|s| s.kind != "toc"), "普通段落不应该被当成目录");
}

#[test]
fn toc_translation_keeps_hard_breaks() {
    let out = normalize_translated("toc", "1、引言 .... 3\n2、方法 .... 5\n");
    assert_eq!(out, "1、引言 .... 3  \n2、方法 .... 5");
}

#[test]
fn plain_paragraph_translation_still_collapses() {
    let out = normalize_translated("paragraph", "一句一换行\n的译文\n应当折叠");
    assert_eq!(out, "一句一换行 的译文 应当折叠");
}

#[test]
fn segments_are_numbered_in_order_and_never_empty() {
    let segs = split_markdown("# T\n\nA para.\n\n| a | b |\n|---|---|\n\n```\ncode\n```\n");
    for (i, s) in segs.iter().enumerate() {
        assert_eq!(s.index, i);
        assert!(!s.content.is_empty());
    }
    assert_eq!(segs[0].kind, "heading");
    assert_eq!(segs[1].kind, "paragraph");
    assert_eq!(segs[2].kind, "table");
    assert_eq!(segs[3].kind, "code");
}

#[test]
fn references_after_bibliography_heading() {
    let segs = split_markdown("# References\n\n[1] A. Author, Title.\n");
    assert_eq!(segs[1].kind, "reference");
}

#[test]
fn http_errors_are_classified() {
    let e = classify_http_error(401, "{\"error\":{\"message\":\"bad key\"}}");
    assert_eq!(e.category, "llm");
    assert_eq!(e.message, "API 错误 HTTP 401: bad key");
    assert!(e.hint.contains("API Key"));
    assert!(!e.retryable);
    let e = classify_http_error(429, "");
    assert!(e.retryable);
    let e = classify_http_error(503, "oops");
    assert_eq!(e.message, "API 错误 HTTP 503: oops");
    assert!(e.retryable);
}

#[test]
fn llm_error_detail_prefers_error_message() {
    assert_eq!(
        extract_llm_error_detail("{\"error\":{\"message\":\"m\",\"code\":\"c\"}}"),
        Some("m".to_string())
    );
    assert_eq!(extract_llm_error_detail("{\"message\":\"x\"}"), Some("x".to_string()));
    assert_eq!(extract_llm_error_detail(" not json "), Some("not json".to_string()));
    assert_eq!(extract_llm_error_detail("   "), None);
}

#[test]
fn network_errors_are_classified() {
    let e = classify_network_error(NetworkFailure::Timeout, "slow");
    assert_eq!(e.category, "network");
    assert_eq!(e.message, "请求超时: slow");
    assert!(!e.retryable);
}

#[test]
fn cancellation_is_recognized() {
    let e = TranslateError::cancelled();
    assert!(e.is_cancelled());
    assert_eq!(e.message, "已取消");
}

#[test]
fn image_references_are_collected_once() {
    let md = "![a](./images/x.png)\ntext ![b](images/y.jpg) ![c](./images/x.png)";
    let refs = collect_image_refs(md);
    assert_eq!(refs, vec!["./images/x.png".to_string(), "images/y.jpg".to_string()]);
    assert_eq!(extract_image_path("![a](p.png)"), Some("p.png".to_string()));
    assert!(is_pure_image_ref("  ![a](p.png)  "));
    assert!(!is_pure_image_ref("see ![a](p.png) here"));
}

#[test]
fn captions_and_meta_replies() {
    assert!(is_caption_line("Figure 3. Results"));
    assert!(is_caption_line("  表 2 数据"));
    assert!(!is_caption_line("The figure shows"));
    assert!(looks_like_meta_reply("请提供需要翻译的内容"));
    assert!(!looks_like_meta_reply("这是译文。"));
}

#[test]
fn direction_and_vision_config() {
    assert!(matches!(TranslateDirection::parse("zh_to_en"), TranslateDirection::ZhToEn));
    assert!(matches!(TranslateDirection::parse("other"), TranslateDirection::EnToZh));
    let v = VisionConfig { base_url: "u".into(), api_key: "k".into(), model: "m".into() };
    assert!(v.enabled());
    let w = VisionConfig { base_url: "u".into(), api_key: "  ".into(), model: "m".into() };
    assert!(!w.enabled());
}

fn translator(glossary: Vec<(String, String)>) -> Translator {
    Translator {
        base_url: "http://x".into(),
        api_key: "k".into(),
        model: "m".into(),
        glossary,
        vision_notes: Vec::new(),
        direction: TranslateDirection::EnToZh,
    }
}

const ONLY: &str = "请只输出上面内容的译文本身，不要输出任何解释、提示、要求补充内容、规则说明或其他与译文无关的文字。\n\n";

#[test]
fn pure_image_caption_needs_no_request() {
    let t = translator(Vec::new());
    match t.start_translate("![](images/a.png)", "image_caption", None) {
        TranslateStart::Done(s) => assert_eq!(s, "![](images/a.png)"),
        TranslateStart::Call(_) => panic!("no request expected"),
    }
}

#[test]
fn request_content_for_paragraph_and_reference() {
    let t = translator(Vec::new());
    match t.start_translate("Hello world.", "paragraph", None) {
        TranslateStart::Call(c) => {
            assert_eq!(c.attempt, 0);
            assert_eq!(c.content, format!("{ONLY}Hello world."));
        }
        TranslateStart::Done(_) => panic!("request expected"),
    }
    match t.start_translate("Smith J. A study. Nature 2020.", "reference", None) {
        TranslateStart::Call(c) => {
            assert!(c.content.starts_with(ONLY));
            assert!(c.content.contains("翻译为简体中文；"));
            assert!(c.content.ends_with("\n\nSmith J. A study. Nature 2020."));
        }
        TranslateStart::Done(_) => panic!("request expected"),
    }
}

#[test]
fn caption_request_carries_figure_note() {
    let t = translator(Vec::new());
    match t.start_translate("Figure 1. Map", "paragraph", Some("地图；研究区")) {
        TranslateStart::Call(c) => {
            assert!(c.content.starts_with(&format!("{ONLY}【图片自动分析】地图；研究区\n\n")));
            assert!(c.content.ends_with("Figure 1. Map"));
        }
        TranslateStart::Done(_) => panic!("request expected"),
    }
}

fn call() -> TranslateCall {
    TranslateCall {
        attempt: 0,
        content: "C".into(),
        last_err: TranslateError {
            category: "llm".into(),
            message: "未知错误".into(),
            hint: "请重试".into(),
            retryable: false,
        },
    }
}

fn retryable() -> TranslateError {
    TranslateError { category: "network".into(), message: "down".into(), hint: "h".into(), retryable: true }
}

#[test]
fn retryable_errors_back_off_then_fail() {
    let t = translator(Vec::new());
    let mut c = call();
    assert!(matches!(t.after_reply("src", &mut c, Err(retryable())), TranslateAction::Retry(1)));
    assert_eq!(c.attempt, 1);
    assert!(matches!(t.after_reply("src", &mut c, Err(retryable())), TranslateAction::Retry(2)));
    assert_eq!(c.attempt, 2);
    match t.after_reply("src", &mut c, Err(retryable())) {
        TranslateAction::Finish(Err(e)) => {
            assert_eq!(e.message, "翻译失败（已重试 3 次）: down");
            assert_eq!(e.category, "network");
            assert!(!e.retryable);
        }
        _ => panic!("final failure expected"),
    }
}

#[test]
fn conversational_replies_fall_back_to_source() {
    let t = translator(Vec::new());
    let mut c = call();
    assert!(matches!(t.after_reply("src", &mut c, Ok("请提供需要翻译的内容".into())), TranslateAction::Retry(0)));
    assert!(c.content.starts_with("【再次提醒】"));
    assert_eq!(c.last_err.message, "模型返回了非译文内容（第 1 次尝试）");
    let _ = t.after_reply("src", &mut c, Ok("请提供需要翻译的内容".into()));
    match t.after_reply("src", &mut c, Ok("请提供需要翻译的内容".into())) {
        TranslateAction::Finish(Ok(s)) => assert_eq!(s, "src"),
        _ => panic!("source text expected"),
    }
    let mut d = call();
    match t.after_reply("src", &mut d, Ok("译文。".into())) {
        TranslateAction::Finish(Ok(s)) => assert_eq!(s, "译文。"),
        _ => panic!("translation expected"),
    }
}

#[test]
fn system_prompt_lists_glossary() {
    let t = translator(vec![("LLM".into(), "大语言模型".into()), ("RAG".into(), "检索增强生成".into())]);
    let p = t.system_prompt();
    assert!(p.starts_with("你是一名专业的学术论文翻译助手。"));
    assert!(p.ends_with("\n\n术语表（必须严格遵守）：\nLLM = 大语言模型\nRAG = 检索增强生成\n"));
    assert!(!translator(Vec::new()).system_prompt().contains("术语表（必须严格遵守）"));
    assert_eq!(t.target_lang(), ("简体中文", "Chinese"));
}

#[test]
fn figure_notes_follow_the_last_caption() {
    let segs = split_markdown("Intro text.\n\n![](images/a.png)\nFigure 1. A\n\nAfter text.");
    let notes = vec![("images/a.png".to_string(), "示意图".to_string())];
    let r = segment_notes(&segs, &notes);
    assert_eq!(r.len(), segs.len());
    assert_eq!(r[0], None);
    assert_eq!(r[r.len() - 1], Some("示意图".to_string()));
}

#[test]
fn vision_limits_and_mime() {
    assert!(!vision_accepts(0));
    assert!(vision_accepts(VISION_MAX_BYTES));
    assert!(!vision_accepts(VISION_MAX_BYTES + 1));
    assert_eq!(vision_mime_for("png"), "image/png");
    assert_eq!(vision_mime_for("tif"), "image/jpeg");
}

#[test]
fn html_escaping_and_inline_styles() {
    assert_eq!(escape_html("a<b>&\"c\""), "a&lt;b&gt;&amp;&quot;c&quot;");
    assert_eq!(inline_html("**b** and *i* and `x<y`"), "<strong>b</strong> and <em>i</em> and <code>x&lt;y</code>");
}

#[test]
fn image_refs_collected_once_in_order() {
    let md = "![a](img/1.png) ![b](http://x/y.png) ![c]( img/1.png ) ![d](img/2.jpg)";
    assert_eq!(collect_image_refs(md), vec!["img/1.png".to_string(), "img/2.jpg".to_string()]);
}

#[test]
fn headings_stand_alone_and_segments_end_clean() {
    let segs = split_markdown("Para one.  \n# Title  \nMore text\t\n");
    let got: Vec<(&str, &str)> = segs.iter().map(|s| (s.kind.as_str(), s.content.as_str())).collect();
    assert_eq!(got, vec![("paragraph", "Para one."), ("heading", "# Title"), ("paragraph", "More text")]);
}

#[test]
fn chat_reply_content_or_wording() {
    let ok = "{\"choices\":[{\"message\":{\"content\":\"译文\"}}]}";
    assert_eq!(litdesk::translate::read_chat_reply(ok, true).unwrap(), "译文");
    let e = litdesk::translate::read_chat_reply("{\"choices\":[]}", true).unwrap_err();
    assert_eq!(e.message, "响应缺少翻译内容");
    assert_eq!(e.category, "llm");
    let e = litdesk::translate::read_chat_reply("{}", false).unwrap_err();
    assert_eq!(e.message, "响应缺少内容");
}
