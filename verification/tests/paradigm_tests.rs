use litdesk::paradigm::{paper_signals, recognize_signals};
use litdesk::paradigm::{recognize, ParadigmInput, SCALE};

fn ratio(v: u32) -> f64 {
    v as f64 / SCALE as f64
}

#[test]
fn recognizes_experimental_paper() {
    let input = ParadigmInput {
        title: "Improving Image Classification with New Baseline".into(),
        abstract_text: "We benchmark our method against SOTA baselines on three datasets, report accuracy and F1 metrics, and conduct ablation studies.".into(),
        headings: vec![
            "1. Introduction".into(),
            "2. Method".into(),
            "3. Experiments".into(),
            "4. Results".into(),
            "5. Conclusion".into(),
        ],
        body_sample: "baseline ablation dataset accuracy".into(),
        table_count: 3,
        image_count: 2,
        math_symbols: 2,
        ..Default::default()
    };
    let r = recognize(&input);
    assert_eq!(r.paradigm_id, "paradigm-experimental-baseline");
    assert!(ratio(r.confidence) >= 0.7);
    assert_eq!(r.cross_type, "单学科");
}

#[test]
fn theoretical_paper_no_method_sections() {
    let input = ParadigmInput {
        title: "The Concept of Genealogy in Modern Critique".into(),
        abstract_text: "This paper argues that the concept of discourse requires a new genealogy.".into(),
        headings: vec!["1. 何谓批评".into(), "2. 概念的谱系".into(), "3. 反驳与回应".into()],
        body_sample: "argue concept critique objection discourse".into(),
        ..Default::default()
    };
    let r = recognize(&input);
    assert_eq!(r.paradigm_id, "paradigm-theoretical");
}

#[test]
fn empirical_paper_with_regression() {
    let input = ParadigmInput {
        title: "Firm Performance and Market Competition".into(),
        abstract_text: "We estimate a panel regression with fixed effects and instrumental variables to address endogeneity.".into(),
        headings: vec![
            "1. Introduction".into(),
            "2. Data".into(),
            "3. Empirical Strategy".into(),
            "4. Results".into(),
            "5. Robustness".into(),
            "6. Conclusion".into(),
        ],
        body_sample: "regression endogeneity panel data fixed effects robustness".into(),
        table_count: 4,
        ..Default::default()
    };
    let r = recognize(&input);
    assert_eq!(r.paradigm_id, "paradigm-empirical-stat");
}

#[test]
fn social_science_experiment_not_misjudged_as_theoretical() {
    let input = ParadigmInput {
        title: "Confiding to AI: Impacts of ICE Framework-Based Body Movements of VR Chatbots on User Self-Disclosure and Experience".into(),
        abstract_text: "This study proposes the ICE Movements Framework and conducted a single-factor within-subjects experiment involving 56 university students. Quantitative and qualitative results revealed that body movements significantly enhanced users' self-disclosure willingness, satisfaction, trust, and intention to use.".into(),
        keywords: "Artificial intelligence; virtual reality; chatbots; physical movements; self-disclosure".into(),
        headings: vec![
            "ABSTRACT".into(),
            "1. Introduction".into(),
            "2. Related studies".into(),
            "3. Methods".into(),
            "3.5. Participants".into(),
            "3.6. Quantitative data - scale measurement".into(),
            "3.9. Data statistics and analyses".into(),
            "4. Results".into(),
            "5. Discussion".into(),
        ],
        body_sample: "the experiment involved 56 participants; ANOVA showed significant differences across conditions; reliability and validity were evaluated".into(),
        table_count: 6,
        image_count: 12,
        math_symbols: 0,
        ..Default::default()
    };
    let r = recognize(&input);
    assert_ne!(
        r.paradigm_id, "paradigm-theoretical",
        "具备 Methods/Results 结构的实证论文不应被判为理论论述型"
    );
    assert_eq!(r.paradigm_id, "paradigm-experimental-baseline");
    assert!(
        ratio(r.confidence) > 0.7,
        "识别置信度应反映明确的结构信号，实际为 {}",
        ratio(r.confidence)
    );
    assert_ne!(
        r.domestic.discipline, "新闻传播学",
        "学科不应因正文中的 communication / media 等泛用词被误判"
    );
}

#[test]
fn chinese_systematic_review() {
    let input = ParadigmInput {
        title: "教育干预的元分析".into(),
        abstract_text: "系统综述检索了 12 个数据库，纳入 45 项随机对照试验，报告纳入与排除标准及发表偏倚评估。".into(),
        headings: vec!["1. 引言".into(), "2. 检索策略".into(), "3. 纳入标准".into(), "4. 结果".into()],
        body_sample: "效应量 森林图 异质性 荟萃分析".into(),
        table_count: 2,
        image_count: 1,
        ..Default::default()
    };
    let r = recognize(&input);
    assert_eq!(r.paradigm_id, "paradigm-systematic-review");
}

#[test]
fn vr_ich_paper_dual_classification() {
    let input = ParadigmInput {
        title: "Preserving Intangible Cultural Heritage through Virtual Reality".into(),
        abstract_text: "We present a virtual reality system for the digital preservation of intangible cultural heritage, including immersive interaction design for museum visitors.".into(),
        headings: vec![
            "1. Introduction".into(),
            "2. Related Work".into(),
            "3. System Design".into(),
            "4. Implementation".into(),
            "5. User Study".into(),
            "6. Conclusion".into(),
        ],
        body_sample: "heritage intangible cultural heritage virtual reality immersive digital preservation".into(),
        image_count: 4,
        ..Default::default()
    };
    let r = recognize(&input);
    assert_eq!(r.paradigm_id, "paradigm-design-science");
    assert_eq!(r.domestic.discipline, "非物质文化遗产学");
    assert_eq!(r.international.discipline, "Conservation");
    let names: Vec<&str> = r.directions.iter().map(|d| d.name.as_str()).collect();
    assert!(names.contains(&"数字遗产与非遗数字化"));
    assert!(names.contains(&"虚拟现实与沉浸式技术"));
}

#[test]
fn empty_paper_falls_back_to_common_fields() {
    let r = recognize(&ParadigmInput::default());
    assert!(r.fallback_to_common);
    assert!(r.human_review_required);
    assert_eq!(r.cross_type, "单学科");
    assert_eq!(r.domestic.discipline, "未识别");
    assert_eq!(r.domestic.basis, vec!["未匹配到足够学科信号".to_string()]);
    assert_eq!(r.international.discipline, "Unidentified");
    assert!(r.directions.is_empty());
}

#[test]
fn scores_are_exact_fixed_point_values() {
    // Two section hits (0.45), four keywords (0.40) and the social-science
    // prior on "interviews" (0.03): 0.88, no object signal.
    let input = ParadigmInput {
        headings: vec!["Case Study".into(), "Case Selection".into()],
        body_sample: "interviews fieldwork triangulation grounded theory".into(),
        ..Default::default()
    };
    let r = recognize(&input);
    assert_eq!(r.paradigm_id, "paradigm-case-study");
    assert_eq!(r.confidence, 1056);
    assert!(r.identification_basis[0].starts_with("章节信号命中：case study / case selection"));
}

#[test]
fn uppercase_signals_are_lower_cased() {
    // The keywords only match after Unicode lower-casing of the text.
    let input = ParadigmInput {
        title: "RANDOMIZED CONTROLLED TRIAL".into(),
        headings: vec!["RANDOMIZATION".into(), "CLINICAL TRIAL".into()],
        body_sample: "PLACEBO DOUBLE-BLIND BLINDING CONSORT".into(),
        ..Default::default()
    };
    let r = recognize(&input);
    assert_eq!(r.paradigm_id, "paradigm-rct");
}

#[test]
fn confidence_never_exceeds_one() {
    let input = ParadigmInput {
        title: "simulation of fluid flow".into(),
        headings: vec!["Numerical method".into(), "Simulation".into(), "Validation".into()],
        body_sample: "finite element mesh convergence boundary condition cfd".into(),
        math_symbols: 10,
        ..Default::default()
    };
    let r = recognize(&input);
    assert!(r.confidence <= SCALE);
    for s in &r.secondary_paradigms {
        assert!(s.weight >= 180);
    }
}

#[test]
fn empty_input_falls_back_for_review() {
    let r = recognize(&ParadigmInput::default());
    assert!(r.fallback_to_common);
    assert!(r.human_review_required);
    assert_eq!(r.cross_type, "单学科");
}

#[test]
fn recognition_from_signals_matches_recognize() {
    let input = ParadigmInput {
        title: "Firm Performance and Market Competition".into(),
        headings: vec!["1. Introduction".into(), "2. Data".into(), "4. Results".into(), "5. Robustness".into()],
        abstract_text: "regression endogeneity panel data fixed effects robustness".into(),
        ..Default::default()
    };
    let a = recognize(&input);
    let b = recognize_signals(&paper_signals(&input));
    assert_eq!(a.paradigm_id, b.paradigm_id);
    assert_eq!(a.confidence, b.confidence);
    assert_eq!(a.cross_type, b.cross_type);
}
