use litdesk::digest::{
    build_field_user, build_system_prompt, context_for_field, digest_field, digest_header,
    field_outcome, fields_to_md, legacy_digest_fields, number_segments, DigestAction,
    DigestFieldResult, DigestRun,
};
use litdesk::fields::FieldDef;
use litdesk::paradigm::{recognize, ParadigmInput};
use litdesk::translate::TranslateError;

fn field(name: &str, label: &str, desc: &str) -> FieldDef {
    FieldDef {
        name: name.into(),
        label: label.into(),
        ftype: "text".into(),
        description: desc.into(),
        required: false,
        enum_values: Vec::new(),
        source: "通用".into(),
    }
}

#[test]
fn field_context_reaches_tail_of_long_paper() {
    let mut md = String::new();
    for i in 1..=150 {
        md.push_str(&format!("## Section {i}\n\n"));
        if i == 140 {
            md.push_str(
                "We report the main regression results with fixed effects and robust standard errors.\n\n",
            );
        } else {
            md.push_str(&format!(
                "Filler paragraph {i} contains ordinary narrative content for padding.\n\n"
            ));
        }
    }
    let segs = number_segments(&md);
    assert!(segs.len() > 100, "测试语料应产生足够多的段落");

    let f = field("main_regression", "核心回归结果", "核心回归结果表");
    let ctx = context_for_field(&segs, &f, 6000);

    assert!(
        ctx.contains("main regression results"),
        "位于论文后段的字段相关段落应被检索进上下文，否则该字段只能报引用缺失"
    );
}

#[test]
fn field_context_respects_budget() {
    let mut md = String::new();
    for i in 1..=300 {
        md.push_str(&format!("Paragraph {i} text body.\n\n"));
    }
    let segs = number_segments(&md);
    let f = field("dataset_name", "数据集名称", "使用的数据集名称");
    let ctx = context_for_field(&segs, &f, 2000);
    assert!(ctx.chars().count() <= 2200, "上下文不应超出预算，实际 {} 字符", ctx.chars().count());
}

#[test]
fn segment_numbering_is_sequential() {
    let md = "## 1. Introduction\n\nFirst paragraph.\n\nSecond paragraph.\n\n## 2. Methods\n\nThird paragraph.\n\n";
    let segs = number_segments(md);
    let nos: Vec<usize> = segs.iter().filter_map(|s| s.no).collect();
    assert_eq!(nos, vec![1, 2, 3]);
    assert!(segs.iter().any(|s| s.heading.as_deref() == Some("2. Methods")));
}

#[test]
fn context_renders_entries_in_reading_order() {
    let segs = number_segments("## Intro\n\nAlpha text.\n\nBeta text.\n");
    let f = field("zzzz", "无关", "");
    let ctx = context_for_field(&segs, &f, 1000);
    assert_eq!(ctx, "【章节】Intro\n\n[段落 1]\nAlpha text.\n\n[段落 2]\nBeta text.\n\n");
    assert_eq!(context_for_field(&segs, &f, 0), "");
}

#[test]
fn hits_come_first_within_the_budget() {
    let segs = number_segments("Alpha filler.\n\nThe dataset used here.\n");
    let f = field("dataset", "数据", "");
    // Room for one rendered paragraph only: the hit wins over reading order.
    let ctx = context_for_field(&segs, &f, 50);
    assert_eq!(ctx, "[段落 2]\nThe dataset used here.\n\n");
}

#[test]
fn user_prompt_lists_enum_values() {
    let mut f = field("blinding", "盲法", "盲法类型");
    f.ftype = "enum".into();
    f.enum_values = vec!["单盲".into(), "双盲".into()];
    let u = build_field_user(&f, "CTX");
    assert!(u.starts_with("【文献内容】（段落编号用于引用锚定）\nCTX\n\n【待拆解字段】\n字段：盲法\n说明：盲法类型\n类型：enum → 从可选值中选择一个（可选值：单盲 / 双盲）\n\n"));
    assert!(u.ends_with("其余字段省略此项\"}"));
}

#[test]
fn system_prompt_carries_paradigm_instruction() {
    let input = ParadigmInput {
        title: "Benchmark".into(),
        headings: vec!["Experiments".into(), "Results".into()],
        body_sample: "baseline ablation sota benchmark".into(),
        ..Default::default()
    };
    let rec = recognize(&input);
    assert_eq!(rec.paradigm_id, "paradigm-experimental-baseline");
    let s = build_system_prompt(&rec, "通用字段 + 主范式特有字段", 19);
    assert!(s.starts_with("你是一名实验对比型范式领域的论文拆解专家。"));
    assert!(s.contains("共 19 个字段）"));
    assert!(s.contains("\n         【范式核对要求】重点核对：基线是否公平"));
    assert!(s.ends_with("\n若文献明显包含多学科交叉，除主范式视角外，可补充说明交叉学科视角。"));
}

fn err(retryable: bool) -> TranslateError {
    TranslateError { category: "llm".into(), message: "boom".into(), hint: String::new(), retryable }
}

#[test]
fn digest_answer_with_citation_is_taken() {
    let mut run = DigestRun::new("U", "text");
    let act = digest_field(&mut run, Ok("```json\n{\"zh\": \"结论 [段落 3]\", \"en\": \"Conclusion\"}\n```".into()));
    match act {
        DigestAction::Done(Ok((zh, en, table))) => {
            assert_eq!(zh, "结论 [段落 3]");
            assert_eq!(en, "Conclusion");
            assert_eq!(table, None);
        }
        _ => panic!("expected a finished field"),
    }
}

#[test]
fn digest_reads_arrays_and_tables() {
    let mut run = DigestRun::new("U", "table");
    let raw = "{\"zh\": [\" a [段落 1] \", {\"term\": \"b\"}, 3], \"en\": {\"text\": \" E \"}, \"table\": \"|x|\"}";
    match digest_field(&mut run, Ok(raw.into())) {
        DigestAction::Done(Ok((zh, en, table))) => {
            assert_eq!(zh, "a [段落 1]\nb\n3");
            assert_eq!(en, "E");
            assert_eq!(table, Some("|x|".to_string()));
        }
        _ => panic!("expected a finished field"),
    }
}

#[test]
fn digest_without_citation_asks_again_once() {
    let mut run = DigestRun::new("U", "text");
    match digest_field(&mut run, Ok("plain text".into())) {
        DigestAction::Ask(u) => {
            assert!(u.starts_with("U\n\n你的上一条输出缺少段落引用。"));
            assert!(u.ends_with("{\"zh\":\"引用缺失\",\"en\":\"Citation missing\"}。"));
        }
        _ => panic!("expected a reminder"),
    }
    assert_eq!(run.stage, 2);
    // The reminder request fails: the first answer stands.
    match digest_field(&mut run, Err(err(true))) {
        DigestAction::Done(Ok((zh, en, _))) => {
            assert_eq!(zh, "plain text");
            assert_eq!(en, "");
        }
        _ => panic!("expected the first answer"),
    }
}

#[test]
fn digest_retries_a_retryable_error_once() {
    let mut run = DigestRun::new("U", "text");
    match digest_field(&mut run, Err(err(true))) {
        DigestAction::Ask(u) => assert_eq!(u, "U"),
        _ => panic!("expected a retry"),
    }
    match digest_field(&mut run, Err(err(true))) {
        DigestAction::Done(Err(e)) => assert_eq!(e.message, "boom"),
        _ => panic!("expected the error"),
    }
    let mut other = DigestRun::new("U", "text");
    assert!(matches!(digest_field(&mut other, Err(err(false))), DigestAction::Done(Err(_))));
}

#[test]
fn field_results_and_markdown() {
    let f = field("n", "标签", "d");
    let (r, md) = field_outcome(&f, Ok(("中 [段落 1]".into(), "en".into(), Some("|t|".into()))));
    assert!(!r.failed);
    assert_eq!(md, "## 标签\n\n|t|\n\n中 [段落 1]\n\n");
    let (r, md) = field_outcome(&f, Err(err(false)));
    assert!(r.failed);
    assert_eq!(r.zh, "引用缺失");
    assert_eq!(r.en, "Citation missing");
    assert_eq!(md, "## 标签\n\n引用缺失（拆解失败：boom）\n\n");
    let fields = vec![DigestFieldResult {
        name: "n".into(),
        label: "L".into(),
        ftype: "text".into(),
        source: "s".into(),
        zh: "Z".into(),
        en: "E".into(),
        table: Some(String::new()),
        failed: false,
    }];
    assert_eq!(fields_to_md("T", &fields), "# T\n\n## L\n\nZ\n\n_English:_ E\n\n");
}

#[test]
fn digest_header_names_paradigm() {
    let rec = recognize(&ParadigmInput::default());
    let h = digest_header("Title", &rec, "S", 3);
    assert_eq!(h, format!("# Title\n\n> 范式：{} ｜ {} ｜ S ｜ 共 3 个字段\n\n", rec.paradigm_name, rec.cross_type));
}

#[test]
fn legacy_digest_layout_is_read() {
    let v = legacy_digest_fields(
        "[{\"name\":\"a\",\"label\":\"A\",\"content\":\"C\",\"failed\":true},{\"label\":\"no name\"}]",
    );
    assert_eq!(v.len(), 1);
    assert_eq!(v[0].name, "a");
    assert_eq!(v[0].zh, "C");
    assert!(v[0].failed);
    assert!(legacy_digest_fields("{}").is_empty());
}
