use litdesk::library::language_of_detection;
use litdesk::library::{done_from_resume, encode_resume};
use litdesk::library::{check_base_url, check_glossary_term, check_read_status};
use litdesk::error_code::{err, from_translate_category, IMPORT_INVALID};
use litdesk::library::{
    assemble_translation, bilingual_pairs, check_extension, check_signature, detect_paper_language,
    env_key, extract_title_and_authors, is_parsed_status, mask_key, paper_language,
    paradigm_input_from, pending_segments,
};
use litdesk::logging::{error, info, needs_rotation, tail, warn, LogPlace};
use litdesk::mineru::{pick_markdown, read_poll_reply, read_upload_reply, MinerUClient, PollState};
use litdesk::stats::{Stats, StatsEvent};
use litdesk::translate::split_markdown;

#[test]
fn title_and_authors_from_markdown() {
    let md = "# Deep Study\n\nAlice Smith, University A\nBob Lee, Lab B\n\nAbstract text.\n";
    let (t, a) = extract_title_and_authors(md);
    assert_eq!(t, Some("Deep Study".to_string()));
    assert_eq!(a, Some("Alice Smith, Bob Lee".to_string()));
    let (t, a) = extract_title_and_authors("no heading here\n");
    assert_eq!(t, None);
    assert_eq!(a, None);
}

#[test]
fn authors_stop_at_long_lines_and_skip_links() {
    let long = "x".repeat(130);
    let md = format!("# T\nhttps://doi.org/1\nCarol\n{long}\nDave\n");
    let (_, a) = extract_title_and_authors(&md);
    assert_eq!(a, Some("Carol".to_string()));
}

#[test]
fn language_of_papers() {
    assert_eq!(
        detect_paper_language("This is a long English sentence about the results of the experiment and its analysis."),
        "英文"
    );
    assert_eq!(detect_paper_language("这是一段关于实验结果与分析的中文文本，用于检测论文的主要语言。"), "中文");
    assert_eq!(detect_paper_language(""), "其他");
    assert_eq!(paper_language("这是一段关于实验结果与分析的中文文本，用于检测论文的主要语言。"), "中文");
}

#[test]
fn import_checks() {
    assert_eq!(check_extension("PDF"), Ok(()));
    assert_eq!(check_extension("docx"), Err("[E-1001] 仅支持 PDF 文件".to_string()));
    assert_eq!(check_signature(b"%PDF-1.4"), Ok(()));
    assert_eq!(check_signature(b"%PD"), Err(err(IMPORT_INVALID, "文件损坏：不是有效的 PDF")));
    assert!(is_parsed_status("digested"));
    assert!(!is_parsed_status("pending"));
}

#[test]
fn error_codes() {
    assert_eq!(err("E-2001", "x"), "[E-2001] x");
    assert_eq!(from_translate_category("network"), "E-3014");
    assert_eq!(from_translate_category("llm"), "E-3016");
    assert_eq!(from_translate_category("config"), "E-3015");
    assert_eq!(from_translate_category("internal"), "E-3001");
}

#[test]
fn keys_are_masked() {
    assert_eq!(mask_key("short"), "***");
    assert_eq!(mask_key("sk-abcdefghij"), "sk-abc***");
}

#[test]
fn env_file_key() {
    assert_eq!(env_key("A=1\n  MINERU_API_KEY=\"abc\"  \n"), Some("abc".to_string()));
    assert_eq!(env_key("MINERU_API_KEY=\nMINERU_API_KEY='k2'\n"), Some("k2".to_string()));
    assert_eq!(env_key("OTHER=1\n"), None);
}

#[test]
fn recognition_signals_from_markdown() {
    let md = "# Paper\n\nKeywords: vr, heritage\n\nFirst para.\n\n| a |\n|---|\n\n![x](i.png)\n\n$x$ and $y$\n";
    let input = paradigm_input_from("未命名", md);
    assert_eq!(input.title, "Paper");
    assert_eq!(input.headings, vec!["Paper".to_string()]);
    assert_eq!(input.keywords, "vr, heritage");
    assert!(input.abstract_text.ends_with(" 关键词：vr, heritage"));
    assert_eq!(input.table_count, 1);
    assert_eq!(input.image_count, 1);
    assert_eq!(input.math_symbols, 4);
    let input = paradigm_input_from("Stored", md);
    assert_eq!(input.title, "Stored");
}

#[test]
fn bilingual_segments_pair_translations() {
    let md = "# T\n\nBody.\n";
    let pairs = bilingual_pairs(md, "{\"1\": \"正文。\"}").unwrap();
    assert_eq!(pairs.len(), 2);
    assert_eq!(pairs[0].translated, "");
    assert_eq!(pairs[1].original, "Body.");
    assert_eq!(pairs[1].translated, "正文。");
    assert_eq!(bilingual_pairs(md, "[1]").err(), Some("译文数据格式错误".to_string()));
}

#[test]
fn translation_is_assembled_in_order() {
    let segs = split_markdown("# T\n\nBody.\n\nMore.\n");
    let done = vec![(1usize, "正文。".to_string())];
    let pending = pending_segments(&segs, &done);
    assert_eq!(pending.len(), 2);
    assert_eq!(pending[0].index, 0);
    assert_eq!(assemble_translation(&segs, &done), "# T\n\n正文。\n\nMore.");
}

#[test]
fn log_lines_and_tail() {
    assert_eq!(info("ts", "m"), "[ts][INFO] m\n");
    assert_eq!(warn("ts", "m"), "[ts][WARN] m\n");
    assert_eq!(error("ts", "m"), "[ts][ERROR] m\n");
    assert_eq!(tail("a\nb\nc\n", 2), "b\nc");
    assert_eq!(tail("a\nb", 5), "a\nb");
    let big = "y".repeat(9000);
    assert_eq!(tail(&big, 1).chars().count(), 8000);
    assert!(needs_rotation(5 * 1024 * 1024 + 1));
    assert!(!needs_rotation(5 * 1024 * 1024));
    let mut place = LogPlace::new();
    assert_eq!(place.log_dir(), None);
    place.set_dir("/logs");
    place.set_dir("/other");
    assert_eq!(place.log_dir(), Some("/logs".to_string()));
}

#[test]
fn stats_record_only_when_enabled() {
    let mut s = Stats::new();
    s.record(StatsEvent::Import, 5);
    assert!(s.snapshot().1.is_empty());
    s.set_enabled(true);
    assert!(s.is_enabled());
    s.record(StatsEvent::Parse, 5);
    s.record(StatsEvent::Parse, 7);
    let (on, rows) = s.snapshot();
    assert!(on);
    assert_eq!(rows.len(), 1);
    assert_eq!(rows[0].event.key(), "parse");
    assert_eq!((rows[0].count, rows[0].total_ms), (2, 12));
    s.reset();
    assert!(s.is_enabled());
    assert!(s.snapshot().1.is_empty());
    assert!(s.can_record(StatsEvent::Error, 1));
}

#[test]
fn service_replies_are_read() {
    let c = MinerUClient::new("k".into());
    assert_eq!(c.auth_header(), "Bearer k");
    assert_eq!(c.upload_links_url(), "https://mineru.net/api/v4/file-urls/batch");
    assert_eq!(c.results_url("b1"), "https://mineru.net/api/v4/extract-results/batch/b1");
    let ok = "{\"code\":0,\"data\":{\"batch_id\":\"b1\",\"file_urls\":[\"https://u\"]}}";
    assert_eq!(read_upload_reply(ok), Ok(("b1".to_string(), "https://u".to_string())));
    assert_eq!(read_upload_reply("{\"code\":1,\"msg\":\"quota\"}"), Err("MinerU 错误: \"quota\"".to_string()));
    assert_eq!(
        read_upload_reply("{\"code\":0,\"data\":{}}"),
        Err("上传信息缺失（请检查 API Key 与配额）".to_string())
    );
    let running = "{\"code\":0,\"data\":{\"extract_result\":[{\"state\":\"running\",\"extract_progress\":{\"extracted_pages\":3,\"total_pages\":9}}]}}";
    assert!(matches!(read_poll_reply(running), Ok(PollState::Running(p)) if p == "3/9"));
    let done = "{\"code\":0,\"data\":{\"extract_result\":[{\"state\":\"done\",\"full_zip_url\":\"https://z\"}]}}";
    assert!(matches!(read_poll_reply(done), Ok(PollState::Done(Some(u))) if u == "https://z"));
    let empty_url = "{\"code\":0,\"data\":{\"extract_result\":[{\"state\":\"done\",\"full_zip_url\":\"\"}]}}";
    assert!(matches!(read_poll_reply(empty_url), Ok(PollState::Done(Some(u))) if u.is_empty()));
    let no_url = "{\"code\":0,\"data\":{\"extract_result\":[{\"state\":\"done\"}]}}";
    assert!(matches!(read_poll_reply(no_url), Ok(PollState::Done(None))));
    let failed = "{\"code\":0,\"data\":{\"extract_result\":[{\"state\":\"failed\"}]}}";
    assert!(matches!(read_poll_reply(failed), Ok(PollState::Failed(m)) if m == "解析失败: 未知错误"));
    assert_eq!(
        pick_markdown(&vec!["a/img.png".to_string(), "a/full.md".to_string()]),
        Some("a/full.md".to_string())
    );
    assert_eq!(pick_markdown(&vec![]), None);
}

#[test]
fn settings_checks() {
    assert!(check_read_status("read").is_ok());
    assert!(check_read_status("unread").is_ok());
    assert_eq!(check_read_status("done"), Err("[E-9999] 无效的阅读状态: done".to_string()));
    assert_eq!(check_glossary_term("  "), Err("术语不能为空".to_string()));
    assert!(check_glossary_term("RAG").is_ok());
    assert_eq!(check_base_url(""), Err("Base URL 不能为空".to_string()));
    assert!(check_base_url("https://api.example.com").is_ok());
}

#[test]
fn resumed_translation_completes_with_stored_segments() {
    let segs = split_markdown("A one.\n\nB two.\n\nC three.\n");
    let mut done = vec![(1usize, "乙。".to_string())];
    let pending = pending_segments(&segs, &done);
    let sent: Vec<usize> = pending.iter().map(|s| s.index).collect();
    assert_eq!(sent, vec![0, 2]);
    done.push((0, "甲。".to_string()));
    done.push((2, "丙。".to_string()));
    assert!(pending_segments(&segs, &done).is_empty());
    assert_eq!(assemble_translation(&segs, &done), "甲。\n\n乙。\n\n丙。");
}

#[test]
fn resume_file_round_trip() {
    let done = done_from_resume("{\"0\":\"甲\",\"2\":\"丙\",\"x\":\"?\",\"1\":3,\"+3\":\"丁\"}");
    assert_eq!(
        done,
        vec![(2usize, "丙".to_string()), (0, "甲".to_string()), (3, "丁".to_string())]
    );
    assert!(done_from_resume("[1, 2]").is_empty());
    assert!(done_from_resume("not json").is_empty());
    assert_eq!(encode_resume(&vec![(2, "b".to_string()), (0, "a".to_string())]), "{\"0\":\"a\",\"2\":\"b\"}");
    assert_eq!(encode_resume(&vec![(1, "new".to_string()), (1, "old".to_string())]), "{\"1\":\"new\"}");
    let back = done_from_resume(&encode_resume(&vec![(5, "五".to_string()), (7, "七".to_string())]));
    assert_eq!(back.len(), 2);
    assert!(back.contains(&(5, "五".to_string())) && back.contains(&(7, "七".to_string())));
}

#[test]
fn keyword_line_without_colon_is_kept_whole() {
    let input = paradigm_input_from("T", "# T\n\nKeywords vr heritage\n\nBody.\n");
    assert_eq!(input.keywords, "Keywords vr heritage");
}

#[test]
fn language_from_detection() {
    assert_eq!(language_of_detection(Some(("cmn".to_string(), true))), "中文");
    assert_eq!(language_of_detection(Some(("eng".to_string(), true))), "英文");
    assert_eq!(language_of_detection(Some(("eng".to_string(), false))), "其他");
    assert_eq!(language_of_detection(None), "其他");
}
