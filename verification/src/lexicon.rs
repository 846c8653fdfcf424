//! Word lists behind paradigm and discipline recognition: the section and
//! keyword signals of each research paradigm, the discipline dictionaries
//! (domestic 2022 catalogue and ASJC), and the research directions.
use vstd::prelude::*;

verus! {

// ---------------------------------------------------------------------------
// Research paradigms
// ---------------------------------------------------------------------------

pub const PARADIGM_COUNT: usize = 8;

/// Identifiers of the research paradigms, in scoring order.
pub open spec fn paradigm_ids() -> Seq<&'static str> {
    seq![
        "paradigm-experimental-baseline",
        "paradigm-rct",
        "paradigm-empirical-stat",
        "paradigm-theoretical",
        "paradigm-case-study",
        "paradigm-systematic-review",
        "paradigm-computational-sim",
        "paradigm-design-science",
    ]
}

pub fn paradigm_ids_v() -> (r: Vec<&'static str>)
    ensures
        r@ == paradigm_ids(),
{
    let r = vec![
        "paradigm-experimental-baseline",
        "paradigm-rct",
        "paradigm-empirical-stat",
        "paradigm-theoretical",
        "paradigm-case-study",
        "paradigm-systematic-review",
        "paradigm-computational-sim",
        "paradigm-design-science",
    ];
    assert(r@ == paradigm_ids());
    r
}

/// Display names of the research paradigms.
pub open spec fn paradigm_names() -> Seq<&'static str> {
    seq![
        "实验对比型范式",
        "对照实验型范式",
        "实证统计型范式",
        "理论论述型范式",
        "案例研究型范式",
        "综述与元分析型范式",
        "计算模拟型范式",
        "设计与构建型范式",
    ]
}

pub fn paradigm_names_v() -> (r: Vec<&'static str>)
    ensures
        r@ == paradigm_names(),
{
    let r = vec![
        "实验对比型范式",
        "对照实验型范式",
        "实证统计型范式",
        "理论论述型范式",
        "案例研究型范式",
        "综述与元分析型范式",
        "计算模拟型范式",
        "设计与构建型范式",
    ];
    assert(r@ == paradigm_names());
    r
}

/// What the structural object signal of each paradigm detects (empty: none).
pub open spec fn paradigm_object_labels() -> Seq<&'static str> {
    seq![
        "指标/数据对比表格",
        "",
        "回归/描述统计表格",
        "",
        "跨案例对比矩阵",
        "数据提取表",
        "控制方程/公式",
        "系统架构图",
    ]
}

pub fn paradigm_object_labels_v() -> (r: Vec<&'static str>)
    ensures
        r@ == paradigm_object_labels(),
{
    let r = vec![
        "指标/数据对比表格",
        "",
        "回归/描述统计表格",
        "",
        "跨案例对比矩阵",
        "数据提取表",
        "控制方程/公式",
        "系统架构图",
    ];
    assert(r@ == paradigm_object_labels());
    r
}

/// Section-title signals of paradigm `i` (English and Chinese).
pub open spec fn paradigm_sections(i: int) -> Seq<&'static str> {
    if i == 0 {
        seq![
            "experiment",
            "experimental",
            "benchmark",
            "ablation study",
            "evaluation",
            "results",
            "finding",
            "participant",
            "subject",
            "condition",
            "treatment",
            "实验",
            "基准",
            "结果",
            "被试",
            "参与者",
            "实验组",
            "对照组",
        ]
    } else if i == 1 {
        seq![
            "randomized",
            "clinical trial",
            "consort",
            "randomization",
            "试验",
            "随机",
        ]
    } else if i == 2 {
        seq![
            "empirical strategy",
            "identification",
            "robustness",
            "econometric",
            "数据",
            "实证",
            "回归",
        ]
    } else if i == 3 {
        seq![]
    } else if i == 4 {
        seq![
            "case study",
            "case selection",
            "cross-case",
            "fieldwork",
            "ethnograph",
            "案例",
            "个案",
        ]
    } else if i == 5 {
        seq![
            "systematic review",
            "meta-analysis",
            "search strategy",
            "prisma",
            "综述",
            "元分析",
            "荟萃分析",
        ]
    } else if i == 6 {
        seq![
            "numerical method",
            "simulation",
            "verification",
            "validation",
            "finite element",
            "computational model",
            "模型",
            "模拟",
            "数值",
        ]
    } else if i == 7 {
        seq![
            "design science",
            "implementation",
            "artifact",
            "prototype",
            "user study",
            "设计",
            "实现",
        ]
    } else {
        seq![]
    }
}

pub fn paradigm_sections_v(i: usize) -> (r: Vec<&'static str>)
    requires
        i < 8,
    ensures
        r@ == paradigm_sections(i as int),
{
    if i == 0 {
        let r: Vec<&'static str> = vec![
            "experiment",
            "experimental",
            "benchmark",
            "ablation study",
            "evaluation",
            "results",
            "finding",
            "participant",
            "subject",
            "condition",
            "treatment",
            "实验",
            "基准",
            "结果",
            "被试",
            "参与者",
            "实验组",
            "对照组",
        ];
        assert(r@ == paradigm_sections(0));
        r
    } else if i == 1 {
        let r: Vec<&'static str> = vec![
            "randomized",
            "clinical trial",
            "consort",
            "randomization",
            "试验",
            "随机",
        ];
        assert(r@ == paradigm_sections(1));
        r
    } else if i == 2 {
        let r: Vec<&'static str> = vec![
            "empirical strategy",
            "identification",
            "robustness",
            "econometric",
            "数据",
            "实证",
            "回归",
        ];
        assert(r@ == paradigm_sections(2));
        r
    } else if i == 3 {
        let r: Vec<&'static str> = vec![];
        assert(r@ == paradigm_sections(3));
        r
    } else if i == 4 {
        let r: Vec<&'static str> = vec![
            "case study",
            "case selection",
            "cross-case",
            "fieldwork",
            "ethnograph",
            "案例",
            "个案",
        ];
        assert(r@ == paradigm_sections(4));
        r
    } else if i == 5 {
        let r: Vec<&'static str> = vec![
            "systematic review",
            "meta-analysis",
            "search strategy",
            "prisma",
            "综述",
            "元分析",
            "荟萃分析",
        ];
        assert(r@ == paradigm_sections(5));
        r
    } else if i == 6 {
        let r: Vec<&'static str> = vec![
            "numerical method",
            "simulation",
            "verification",
            "validation",
            "finite element",
            "computational model",
            "模型",
            "模拟",
            "数值",
        ];
        assert(r@ == paradigm_sections(6));
        r
    } else {
        let r: Vec<&'static str> = vec![
            "design science",
            "implementation",
            "artifact",
            "prototype",
            "user study",
            "设计",
            "实现",
        ];
        assert(r@ == paradigm_sections(7));
        r
    }
}

/// Keyword signals of paradigm `i`.
pub open spec fn paradigm_keywords(i: int) -> Seq<&'static str> {
    if i == 0 {
        seq![
            "baseline",
            "state-of-the-art",
            "sota",
            "ablation",
            "f1-score",
            "top-1",
            "backbone",
            "hyperparameter",
            "benchmark",
            "experiment",
            "participant",
            "condition",
            "treatment",
            "control group",
            "anova",
            "questionnaire",
            "likert",
            "survey",
            "基线",
            "消融",
            "准确率",
            "数据集",
            "被试",
            "问卷",
            "量表",
            "实验组",
            "对照组",
        ]
    } else if i == 1 {
        seq![
            "randomized controlled trial",
            "rct",
            "placebo",
            "double-blind",
            "trial registration",
            "consort",
            "intention-to-treat",
            "blinding",
            "随机对照",
            "安慰剂",
            "双盲",
            "盲法",
            "试验注册",
        ]
    } else if i == 2 {
        seq![
            "regression",
            "instrumental variable",
            "difference-in-differences",
            "regression discontinuity",
            "endogeneity",
            "panel data",
            "fixed effects",
            "heterogeneity",
            "robustness",
            "回归",
            "内生性",
            "工具变量",
            "双重差分",
            "断点回归",
            "面板数据",
            "固定效应",
            "异质性",
            "稳健性",
        ]
    } else if i == 3 {
        seq![
            "argues",
            "argue",
            "concept of",
            "genealogy",
            "critique",
            "objection",
            "discourse",
            "contends",
            "philosophical",
            "hermeneutic",
            "概念",
            "谱系",
            "批评",
            "话语",
            "反驳",
            "论证",
            "思辨",
            "诠释",
        ]
    } else if i == 4 {
        seq![
            "case study",
            "interviews",
            "participant observation",
            "ethnography",
            "fieldwork",
            "unit of analysis",
            "single case",
            "multiple cases",
            "triangulation",
            "grounded theory",
            "访谈",
            "民族志",
            "田野",
            "三角验证",
            "扎根理论",
        ]
    } else if i == 5 {
        seq![
            "systematic review",
            "meta-analysis",
            "prisma",
            "inclusion criteria",
            "exclusion criteria",
            "forest plot",
            "funnel plot",
            "publication bias",
            "effect size",
            "cochrane",
            "纳入标准",
            "排除标准",
            "发表偏倚",
            "森林图",
            "效应量",
        ]
    } else if i == 6 {
        seq![
            "finite element",
            "fem",
            "fvm",
            "mesh",
            "convergence",
            "boundary condition",
            "numerical simulation",
            "computational fluid",
            "cfd",
            "discretization",
            "governing equation",
            "有限元",
            "网格",
            "收敛",
            "边界条件",
            "数值模拟",
            "计算流体",
            "控制方程",
            "离散化",
        ]
    } else if i == 7 {
        seq![
            "design science",
            "prototype",
            "user study",
            "artifact",
            "dsrm",
            "usability",
            "design principles",
            "heuristic evaluation",
            "wireframe",
            "设计科学",
            "原型",
            "用户研究",
            "构件",
            "可用性",
            "设计原则",
        ]
    } else {
        seq![]
    }
}

pub fn paradigm_keywords_v(i: usize) -> (r: Vec<&'static str>)
    requires
        i < 8,
    ensures
        r@ == paradigm_keywords(i as int),
{
    if i == 0 {
        let r: Vec<&'static str> = vec![
            "baseline",
            "state-of-the-art",
            "sota",
            "ablation",
            "f1-score",
            "top-1",
            "backbone",
            "hyperparameter",
            "benchmark",
            "experiment",
            "participant",
            "condition",
            "treatment",
            "control group",
            "anova",
            "questionnaire",
            "likert",
            "survey",
            "基线",
            "消融",
            "准确率",
            "数据集",
            "被试",
            "问卷",
            "量表",
            "实验组",
            "对照组",
        ];
        assert(r@ == paradigm_keywords(0));
        r
    } else if i == 1 {
        let r: Vec<&'static str> = vec![
            "randomized controlled trial",
            "rct",
            "placebo",
            "double-blind",
            "trial registration",
            "consort",
            "intention-to-treat",
            "blinding",
            "随机对照",
            "安慰剂",
            "双盲",
            "盲法",
            "试验注册",
        ];
        assert(r@ == paradigm_keywords(1));
        r
    } else if i == 2 {
        let r: Vec<&'static str> = vec![
            "regression",
            "instrumental variable",
            "difference-in-differences",
            "regression discontinuity",
            "endogeneity",
            "panel data",
            "fixed effects",
            "heterogeneity",
            "robustness",
            "回归",
            "内生性",
            "工具变量",
            "双重差分",
            "断点回归",
            "面板数据",
            "固定效应",
            "异质性",
            "稳健性",
        ];
        assert(r@ == paradigm_keywords(2));
        r
    } else if i == 3 {
        let r: Vec<&'static str> = vec![
            "argues",
            "argue",
            "concept of",
            "genealogy",
            "critique",
            "objection",
            "discourse",
            "contends",
            "philosophical",
            "hermeneutic",
            "概念",
            "谱系",
            "批评",
            "话语",
            "反驳",
            "论证",
            "思辨",
            "诠释",
        ];
        assert(r@ == paradigm_keywords(3));
        r
    } else if i == 4 {
        let r: Vec<&'static str> = vec![
            "case study",
            "interviews",
            "participant observation",
            "ethnography",
            "fieldwork",
            "unit of analysis",
            "single case",
            "multiple cases",
            "triangulation",
            "grounded theory",
            "访谈",
            "民族志",
            "田野",
            "三角验证",
            "扎根理论",
        ];
        assert(r@ == paradigm_keywords(4));
        r
    } else if i == 5 {
        let r: Vec<&'static str> = vec![
            "systematic review",
            "meta-analysis",
            "prisma",
            "inclusion criteria",
            "exclusion criteria",
            "forest plot",
            "funnel plot",
            "publication bias",
            "effect size",
            "cochrane",
            "纳入标准",
            "排除标准",
            "发表偏倚",
            "森林图",
            "效应量",
        ];
        assert(r@ == paradigm_keywords(5));
        r
    } else if i == 6 {
        let r: Vec<&'static str> = vec![
            "finite element",
            "fem",
            "fvm",
            "mesh",
            "convergence",
            "boundary condition",
            "numerical simulation",
            "computational fluid",
            "cfd",
            "discretization",
            "governing equation",
            "有限元",
            "网格",
            "收敛",
            "边界条件",
            "数值模拟",
            "计算流体",
            "控制方程",
            "离散化",
        ];
        assert(r@ == paradigm_keywords(6));
        r
    } else {
        let r: Vec<&'static str> = vec![
            "design science",
            "prototype",
            "user study",
            "artifact",
            "dsrm",
            "usability",
            "design principles",
            "heuristic evaluation",
            "wireframe",
            "设计科学",
            "原型",
            "用户研究",
            "构件",
            "可用性",
            "设计原则",
        ];
        assert(r@ == paradigm_keywords(7));
        r
    }
}

/// Section titles that mark an empirical study, whatever its paradigm.
pub open spec fn empirical_sections() -> Seq<&'static str> {
    seq![
        "method",
        "methodology",
        "research design",
        "participant",
        "subject",
        "data collection",
        "procedure",
        "experiment",
        "results",
        "finding",
        "data analysis",
        "measurement",
        "questionnaire",
        "survey",
        "方法",
        "研究设计",
        "被试",
        "参与者",
        "数据收集",
        "实验",
        "结果",
        "数据分析",
        "问卷",
        "量表",
    ]
}

pub fn empirical_sections_v() -> (r: Vec<&'static str>)
    ensures
        r@ == empirical_sections(),
{
    let r = vec![
        "method",
        "methodology",
        "research design",
        "participant",
        "subject",
        "data collection",
        "procedure",
        "experiment",
        "results",
        "finding",
        "data analysis",
        "measurement",
        "questionnaire",
        "survey",
        "方法",
        "研究设计",
        "被试",
        "参与者",
        "数据收集",
        "实验",
        "结果",
        "数据分析",
        "问卷",
        "量表",
    ];
    assert(r@ == empirical_sections());
    r
}

/// Statistical and methodological terms of empirical work.
pub open spec fn empirical_stats_terms() -> Seq<&'static str> {
    seq![
        "anova",
        "regression",
        "correlation",
        "significan",
        "cronbach",
        "likert",
        "standard deviation",
        "hypothesis",
        "sample size",
        "spss",
        "t-test",
        "chi-square",
        "confidence interval",
        "effect size",
        "within-subjects",
        "between-subjects",
        "方差分析",
        "回归",
        "显著性",
        "信度",
        "效度",
        "量表",
        "假设检验",
        "样本量",
    ]
}

pub fn empirical_stats_terms_v() -> (r: Vec<&'static str>)
    ensures
        r@ == empirical_stats_terms(),
{
    let r = vec![
        "anova",
        "regression",
        "correlation",
        "significan",
        "cronbach",
        "likert",
        "standard deviation",
        "hypothesis",
        "sample size",
        "spss",
        "t-test",
        "chi-square",
        "confidence interval",
        "effect size",
        "within-subjects",
        "between-subjects",
        "方差分析",
        "回归",
        "显著性",
        "信度",
        "效度",
        "量表",
        "假设检验",
        "样本量",
    ];
    assert(r@ == empirical_stats_terms());
    r
}

/// Discipline words that count only in the title and the keyword line.
pub open spec fn weak_discipline_terms() -> Seq<&'static str> {
    seq![
        "communication",
        "media",
        "design",
        "behavior",
        "behaviour",
        "experience",
        "system",
        "technology",
        "information",
        "learning",
        "management",
        "art",
    ]
}

pub fn weak_discipline_terms_v() -> (r: Vec<&'static str>)
    ensures
        r@ == weak_discipline_terms(),
{
    let r = vec![
        "communication",
        "media",
        "design",
        "behavior",
        "behaviour",
        "experience",
        "system",
        "technology",
        "information",
        "learning",
        "management",
        "art",
    ];
    assert(r@ == weak_discipline_terms());
    r
}

// ---------------------------------------------------------------------------
// Discipline priors
// ---------------------------------------------------------------------------

pub const PRIOR_COUNT: usize = 6;

/// Signal words of discipline group `i`.
pub open spec fn prior_keywords(i: int) -> Seq<&'static str> {
    if i == 0 {
        seq![
            "equation",
            "physics",
            "mathematical",
            "numerical",
            "simulation",
            "fluid",
        ]
    } else if i == 1 {
        seq![
            "clinical",
            "patients",
            "randomized",
            "therapy",
            "surgery",
            "treatment",
        ]
    } else if i == 2 {
        seq![
            "algorithm",
            "system",
            "framework",
            "implementation",
            "performance",
            "benchmark",
        ]
    } else if i == 3 {
        seq![
            "regression",
            "panel",
            "empirical",
            "firms",
            "market",
            "survey data",
            "instrumental",
        ]
    } else if i == 4 {
        seq!["survey", "questionnaire", "interviews", "qualitative", "focus group"]
    } else if i == 5 {
        seq![
            "concept",
            "text",
            "critique",
            "discourse",
            "aesthetic",
            "narrative",
            "hermeneutic",
        ]
    } else {
        seq![]
    }
}

pub fn prior_keywords_v(i: usize) -> (r: Vec<&'static str>)
    requires
        i < 6,
    ensures
        r@ == prior_keywords(i as int),
{
    if i == 0 {
        let r: Vec<&'static str> = vec![
            "equation",
            "physics",
            "mathematical",
            "numerical",
            "simulation",
            "fluid",
        ];
        assert(r@ == prior_keywords(0));
        r
    } else if i == 1 {
        let r: Vec<&'static str> = vec![
            "clinical",
            "patients",
            "randomized",
            "therapy",
            "surgery",
            "treatment",
        ];
        assert(r@ == prior_keywords(1));
        r
    } else if i == 2 {
        let r: Vec<&'static str> = vec![
            "algorithm",
            "system",
            "framework",
            "implementation",
            "performance",
            "benchmark",
        ];
        assert(r@ == prior_keywords(2));
        r
    } else if i == 3 {
        let r: Vec<&'static str> = vec![
            "regression",
            "panel",
            "empirical",
            "firms",
            "market",
            "survey data",
            "instrumental",
        ];
        assert(r@ == prior_keywords(3));
        r
    } else if i == 4 {
        let r: Vec<&'static str> = vec!["survey", "questionnaire", "interviews", "qualitative", "focus group"];
        assert(r@ == prior_keywords(4));
        r
    } else {
        let r: Vec<&'static str> = vec![
            "concept",
            "text",
            "critique",
            "discourse",
            "aesthetic",
            "narrative",
            "hermeneutic",
        ];
        assert(r@ == prior_keywords(5));
        r
    }
}

/// Paradigm that discipline group `i` favours most.
pub open spec fn prior_primary() -> Seq<usize> {
    seq![6, 1, 0, 2, 2, 3]
}

pub fn prior_primary_v() -> (r: Vec<usize>)
    ensures
        r@ == prior_primary(),
{
    let r: Vec<usize> = vec![6, 1, 0, 2, 2, 3];
    assert(r@ == prior_primary());
    r
}

/// Paradigm that discipline group `i` favours second.
pub open spec fn prior_secondary() -> Seq<usize> {
    seq![0, 5, 7, 4, 4, 4]
}

pub fn prior_secondary_v() -> (r: Vec<usize>)
    ensures
        r@ == prior_secondary(),
{
    let r: Vec<usize> = vec![0, 5, 7, 4, 4, 4];
    assert(r@ == prior_secondary());
    r
}

// ---------------------------------------------------------------------------
// Domestic disciplines (2022 catalogue)
// ---------------------------------------------------------------------------

pub const DOMESTIC_COUNT: usize = 29;

/// Category of each first-level discipline.
pub open spec fn domestic_categories() -> Seq<&'static str> {
    seq![
        "01 哲学",
        "02 经济学",
        "02 经济学",
        "03 法学",
        "03 法学",
        "03 法学",
        "04 教育学",
        "04 教育学",
        "05 文学",
        "05 文学",
        "05 文学",
        "06 历史学",
        "06 历史学",
        "06 历史学",
        "07 理学",
        "07 理学",
        "07 理学",
        "07 理学",
        "07 理学",
        "08 工学",
        "08 工学",
        "08 工学",
        "10 医学",
        "12 管理学",
        "12 管理学",
        "13 艺术学",
        "14 交叉学科",
        "14 交叉学科",
        "14 交叉学科（自设）",
    ]
}

pub fn domestic_categories_v() -> (r: Vec<&'static str>)
    ensures
        r@ == domestic_categories(),
{
    let r = vec![
        "01 哲学",
        "02 经济学",
        "02 经济学",
        "03 法学",
        "03 法学",
        "03 法学",
        "04 教育学",
        "04 教育学",
        "05 文学",
        "05 文学",
        "05 文学",
        "06 历史学",
        "06 历史学",
        "06 历史学",
        "07 理学",
        "07 理学",
        "07 理学",
        "07 理学",
        "07 理学",
        "08 工学",
        "08 工学",
        "08 工学",
        "10 医学",
        "12 管理学",
        "12 管理学",
        "13 艺术学",
        "14 交叉学科",
        "14 交叉学科",
        "14 交叉学科（自设）",
    ];
    assert(r@ == domestic_categories());
    r
}

/// Code of each first-level discipline.
pub open spec fn domestic_codes() -> Seq<&'static str> {
    seq![
        "0101",
        "0201",
        "0202",
        "0301",
        "0303",
        "0304",
        "0401",
        "0402",
        "0501",
        "0502",
        "0503",
        "0601",
        "0602",
        "0603",
        "0701",
        "0702",
        "0703",
        "0710",
        "0714",
        "0810",
        "0812",
        "0813",
        "1002",
        "1201",
        "1202",
        "1301",
        "1403",
        "1405",
        "99F1",
    ]
}

pub fn domestic_codes_v() -> (r: Vec<&'static str>)
    ensures
        r@ == domestic_codes(),
{
    let r = vec![
        "0101",
        "0201",
        "0202",
        "0301",
        "0303",
        "0304",
        "0401",
        "0402",
        "0501",
        "0502",
        "0503",
        "0601",
        "0602",
        "0603",
        "0701",
        "0702",
        "0703",
        "0710",
        "0714",
        "0810",
        "0812",
        "0813",
        "1002",
        "1201",
        "1202",
        "1301",
        "1403",
        "1405",
        "99F1",
    ];
    assert(r@ == domestic_codes());
    r
}

/// Name of each first-level discipline.
pub open spec fn domestic_names() -> Seq<&'static str> {
    seq![
        "哲学",
        "理论经济学",
        "应用经济学",
        "法学",
        "社会学",
        "民族学",
        "教育学",
        "心理学",
        "中国语言文学",
        "外国语言文学",
        "新闻传播学",
        "考古学",
        "中国史",
        "世界史",
        "数学",
        "物理学",
        "化学",
        "生物学",
        "统计学",
        "信息与通信工程",
        "计算机科学与技术",
        "建筑学",
        "临床医学",
        "管理科学与工程",
        "工商管理",
        "艺术学",
        "设计学",
        "智能科学与技术",
        "非物质文化遗产学",
    ]
}

pub fn domestic_names_v() -> (r: Vec<&'static str>)
    ensures
        r@ == domestic_names(),
{
    let r = vec![
        "哲学",
        "理论经济学",
        "应用经济学",
        "法学",
        "社会学",
        "民族学",
        "教育学",
        "心理学",
        "中国语言文学",
        "外国语言文学",
        "新闻传播学",
        "考古学",
        "中国史",
        "世界史",
        "数学",
        "物理学",
        "化学",
        "生物学",
        "统计学",
        "信息与通信工程",
        "计算机科学与技术",
        "建筑学",
        "临床医学",
        "管理科学与工程",
        "工商管理",
        "艺术学",
        "设计学",
        "智能科学与技术",
        "非物质文化遗产学",
    ];
    assert(r@ == domestic_names());
    r
}

/// Signal words of domestic discipline `i`.
pub open spec fn domestic_keywords(i: int) -> Seq<&'static str> {
    if i == 0 {
        seq![
            "philosophy",
            "philosophical",
            "metaphysics",
            "epistemology",
            "ethics",
            "哲学",
            "思辨",
            "认识论",
            "存在论",
            "形而上学",
            "伦理学",
        ]
    } else if i == 1 {
        seq![
            "political economy",
            "economic history",
            "macroeconomic",
            "microeconomic",
            "发展经济学",
            "政治经济学",
            "经济思想史",
            "宏观经济学",
            "微观经济学",
        ]
    } else if i == 2 {
        seq![
            "finance",
            "financial",
            "fiscal",
            "international trade",
            "industrial economy",
            "货币",
            "金融",
            "财税",
            "国际贸易",
            "产业经济",
            "区域经济",
        ]
    } else if i == 3 {
        seq![
            "legal",
            "law",
            "court",
            "legislation",
            "constitution",
            "judicial",
            "criminal law",
            "法学",
            "法律",
            "司法",
            "立法",
            "宪法",
            "刑法",
            "民法",
        ]
    } else if i == 4 {
        seq![
            "sociology",
            "social inequality",
            "community",
            "social network",
            "class structure",
            "社会学",
            "社会",
            "阶层",
            "不平等",
            "社区",
            "社会网络",
        ]
    } else if i == 5 {
        seq![
            "ethnology",
            "ethnography",
            "folklore",
            "ethnic",
            "minority",
            "民族学",
            "民俗",
            "民族文化",
            "人类学",
            "民族",
            "田野",
        ]
    } else if i == 6 {
        seq![
            "education",
            "teaching",
            "curriculum",
            "pedagogy",
            "教育学",
            "教学",
            "课程",
            "教育",
            "教学法",
        ]
    } else if i == 7 {
        seq![
            "psychology",
            "cognitive",
            "behavior",
            "memory",
            "emotion",
            "perception",
            "心理学",
            "认知",
            "行为",
            "记忆",
            "情绪",
            "知觉",
        ]
    } else if i == 8 {
        seq![
            "chinese literature",
            "ancient chinese",
            "现代文学",
            "中国文学",
            "古代文学",
            "汉语",
            "中文",
        ]
    } else if i == 9 {
        seq![
            "foreign language",
            "linguistics",
            "grammar",
            "phonology",
            "translation studies",
            "语言学",
            "语法",
            "语音",
            "翻译研究",
            "外语",
        ]
    } else if i == 10 {
        seq![
            "communication",
            "media",
            "journalism",
            "audience",
            "news",
            "propaganda",
            "新闻",
            "传播",
            "媒介",
            "媒体",
            "受众",
            "舆情",
            "宣传",
            "出版",
        ]
    } else if i == 11 {
        seq!["archaeolog", "excavation", "site", "考古", "出土", "遗址", "文物考古"]
    } else if i == 12 {
        seq!["chinese history", "ancient history", "中国历史", "古代史", "近代史", "清史"]
    } else if i == 13 {
        seq!["world history", "global history", "世界历史", "全球史", "世界史"]
    } else if i == 14 {
        seq![
            "mathematics",
            "mathematical",
            "theorem",
            "proof",
            "algebra",
            "topology",
            "calculus",
            "probability",
            "数学",
            "定理",
            "证明",
            "代数",
            "拓扑",
            "微积分",
            "概率",
        ]
    } else if i == 15 {
        seq![
            "physics",
            "quantum",
            "particle",
            "electromagnetic",
            "relativity",
            "optics",
            "物理",
            "量子",
            "粒子",
            "电磁",
            "相对论",
            "光学",
        ]
    } else if i == 16 {
        seq![
            "chemistry",
            "molecule",
            "chemical",
            "synthesis",
            "reaction",
            "catalyst",
            "化学",
            "分子",
            "合成",
            "反应",
            "催化",
        ]
    } else if i == 17 {
        seq![
            "biology",
            "cell",
            "gene",
            "protein",
            "genome",
            "organism",
            "dna",
            "生物",
            "细胞",
            "基因",
            "蛋白质",
            "基因组",
            "有机体",
        ]
    } else if i == 18 {
        seq![
            "statistics",
            "statistical",
            "hypothesis testing",
            "回归分析",
            "统计学",
            "统计",
            "假设检验",
        ]
    } else if i == 19 {
        seq!["telecommunication", "signal processing", "通信", "信号", "信息网络", "信息与通信"]
    } else if i == 20 {
        seq![
            "computer science",
            "software",
            "algorithm",
            "programming",
            "dataset",
            "machine learning",
            "deep learning",
            "neural network",
            "benchmark",
            "计算机",
            "算法",
            "软件",
            "数据集",
            "机器学习",
            "深度学习",
            "程序",
            "神经网络",
        ]
    } else if i == 21 {
        seq!["architecture", "architectural", "建筑", "建筑学", "空间设计"]
    } else if i == 22 {
        seq![
            "clinical",
            "patient",
            "disease",
            "surgery",
            "diagnosis",
            "therapy",
            "医学",
            "临床",
            "患者",
            "疾病",
            "手术",
            "诊断",
            "治疗",
        ]
    } else if i == 23 {
        seq![
            "management science",
            "operations research",
            "decision science",
            "管理科学",
            "运筹",
            "决策",
        ]
    } else if i == 24 {
        seq![
            "business management",
            "organization",
            "strategy",
            "leadership",
            "marketing",
            "企业",
            "组织",
            "战略",
            "领导力",
            "营销",
        ]
    } else if i == 25 {
        seq![
            "art",
            "aesthetic",
            "painting",
            "sculpture",
            "music",
            "dance",
            "theater",
            "film",
            "television",
            "calligraphy",
            "艺术",
            "艺术学",
            "美学",
            "绘画",
            "雕塑",
            "音乐",
            "舞蹈",
            "戏剧",
            "电影",
            "电视",
            "书法",
        ]
    } else if i == 26 {
        seq![
            "design",
            "industrial design",
            "interaction design",
            "visual communication",
            "设计",
            "设计学",
            "工业设计",
            "交互设计",
            "视觉传达",
        ]
    } else if i == 27 {
        seq!["artificial intelligence", "intelligent", "智能", "人工智能", "智能体", "智能科技"]
    } else if i == 28 {
        seq![
            "intangible cultural heritage",
            "cultural heritage",
            "heritage",
            "heritage protection",
            "非遗",
            "非物质文化遗产",
            "文化遗产",
            "遗产保护",
            "传承",
        ]
    } else {
        seq![]
    }
}

pub fn domestic_keywords_v(i: usize) -> (r: Vec<&'static str>)
    requires
        i < 29,
    ensures
        r@ == domestic_keywords(i as int),
{
    if i == 0 {
        let r: Vec<&'static str> = vec![
            "philosophy",
            "philosophical",
            "metaphysics",
            "epistemology",
            "ethics",
            "哲学",
            "思辨",
            "认识论",
            "存在论",
            "形而上学",
            "伦理学",
        ];
        assert(r@ == domestic_keywords(0));
        r
    } else if i == 1 {
        let r: Vec<&'static str> = vec![
            "political economy",
            "economic history",
            "macroeconomic",
            "microeconomic",
            "发展经济学",
            "政治经济学",
            "经济思想史",
            "宏观经济学",
            "微观经济学",
        ];
        assert(r@ == domestic_keywords(1));
        r
    } else if i == 2 {
        let r: Vec<&'static str> = vec![
            "finance",
            "financial",
            "fiscal",
            "international trade",
            "industrial economy",
            "货币",
            "金融",
            "财税",
            "国际贸易",
            "产业经济",
            "区域经济",
        ];
        assert(r@ == domestic_keywords(2));
        r
    } else if i == 3 {
        let r: Vec<&'static str> = vec![
            "legal",
            "law",
            "court",
            "legislation",
            "constitution",
            "judicial",
            "criminal law",
            "法学",
            "法律",
            "司法",
            "立法",
            "宪法",
            "刑法",
            "民法",
        ];
        assert(r@ == domestic_keywords(3));
        r
    } else if i == 4 {
        let r: Vec<&'static str> = vec![
            "sociology",
            "social inequality",
            "community",
            "social network",
            "class structure",
            "社会学",
            "社会",
            "阶层",
            "不平等",
            "社区",
            "社会网络",
        ];
        assert(r@ == domestic_keywords(4));
        r
    } else if i == 5 {
        let r: Vec<&'static str> = vec![
            "ethnology",
            "ethnography",
            "folklore",
            "ethnic",
            "minority",
            "民族学",
            "民俗",
            "民族文化",
            "人类学",
            "民族",
            "田野",
        ];
        assert(r@ == domestic_keywords(5));
        r
    } else if i == 6 {
        let r: Vec<&'static str> = vec![
            "education",
            "teaching",
            "curriculum",
            "pedagogy",
            "教育学",
            "教学",
            "课程",
            "教育",
            "教学法",
        ];
        assert(r@ == domestic_keywords(6));
        r
    } else if i == 7 {
        let r: Vec<&'static str> = vec![
            "psychology",
            "cognitive",
            "behavior",
            "memory",
            "emotion",
            "perception",
            "心理学",
            "认知",
            "行为",
            "记忆",
            "情绪",
            "知觉",
        ];
        assert(r@ == domestic_keywords(7));
        r
    } else if i == 8 {
        let r: Vec<&'static str> = vec![
            "chinese literature",
            "ancient chinese",
            "现代文学",
            "中国文学",
            "古代文学",
            "汉语",
            "中文",
        ];
        assert(r@ == domestic_keywords(8));
        r
    } else if i == 9 {
        let r: Vec<&'static str> = vec![
            "foreign language",
            "linguistics",
            "grammar",
            "phonology",
            "translation studies",
            "语言学",
            "语法",
            "语音",
            "翻译研究",
            "外语",
        ];
        assert(r@ == domestic_keywords(9));
        r
    } else if i == 10 {
        let r: Vec<&'static str> = vec![
            "communication",
            "media",
            "journalism",
            "audience",
            "news",
            "propaganda",
            "新闻",
            "传播",
            "媒介",
            "媒体",
            "受众",
            "舆情",
            "宣传",
            "出版",
        ];
        assert(r@ == domestic_keywords(10));
        r
    } else if i == 11 {
        let r: Vec<&'static str> = vec!["archaeolog", "excavation", "site", "考古", "出土", "遗址", "文物考古"];
        assert(r@ == domestic_keywords(11));
        r
    } else if i == 12 {
        let r: Vec<&'static str> = vec!["chinese history", "ancient history", "中国历史", "古代史", "近代史", "清史"];
        assert(r@ == domestic_keywords(12));
        r
    } else if i == 13 {
        let r: Vec<&'static str> = vec!["world history", "global history", "世界历史", "全球史", "世界史"];
        assert(r@ == domestic_keywords(13));
        r
    } else if i == 14 {
        let r: Vec<&'static str> = vec![
            "mathematics",
            "mathematical",
            "theorem",
            "proof",
            "algebra",
            "topology",
            "calculus",
            "probability",
            "数学",
            "定理",
            "证明",
            "代数",
            "拓扑",
            "微积分",
            "概率",
        ];
        assert(r@ == domestic_keywords(14));
        r
    } else if i == 15 {
        let r: Vec<&'static str> = vec![
            "physics",
            "quantum",
            "particle",
            "electromagnetic",
            "relativity",
            "optics",
            "物理",
            "量子",
            "粒子",
            "电磁",
            "相对论",
            "光学",
        ];
        assert(r@ == domestic_keywords(15));
        r
    } else if i == 16 {
        let r: Vec<&'static str> = vec![
            "chemistry",
            "molecule",
            "chemical",
            "synthesis",
            "reaction",
            "catalyst",
            "化学",
            "分子",
            "合成",
            "反应",
            "催化",
        ];
        assert(r@ == domestic_keywords(16));
        r
    } else if i == 17 {
        let r: Vec<&'static str> = vec![
            "biology",
            "cell",
            "gene",
            "protein",
            "genome",
            "organism",
            "dna",
            "生物",
            "细胞",
            "基因",
            "蛋白质",
            "基因组",
            "有机体",
        ];
        assert(r@ == domestic_keywords(17));
        r
    } else if i == 18 {
        let r: Vec<&'static str> = vec![
            "statistics",
            "statistical",
            "hypothesis testing",
            "回归分析",
            "统计学",
            "统计",
            "假设检验",
        ];
        assert(r@ == domestic_keywords(18));
        r
    } else if i == 19 {
        let r: Vec<&'static str> = vec!["telecommunication", "signal processing", "通信", "信号", "信息网络", "信息与通信"];
        assert(r@ == domestic_keywords(19));
        r
    } else if i == 20 {
        let r: Vec<&'static str> = vec![
            "computer science",
            "software",
            "algorithm",
            "programming",
            "dataset",
            "machine learning",
            "deep learning",
            "neural network",
            "benchmark",
            "计算机",
            "算法",
            "软件",
            "数据集",
            "机器学习",
            "深度学习",
            "程序",
            "神经网络",
        ];
        assert(r@ == domestic_keywords(20));
        r
    } else if i == 21 {
        let r: Vec<&'static str> = vec!["architecture", "architectural", "建筑", "建筑学", "空间设计"];
        assert(r@ == domestic_keywords(21));
        r
    } else if i == 22 {
        let r: Vec<&'static str> = vec![
            "clinical",
            "patient",
            "disease",
            "surgery",
            "diagnosis",
            "therapy",
            "医学",
            "临床",
            "患者",
            "疾病",
            "手术",
            "诊断",
            "治疗",
        ];
        assert(r@ == domestic_keywords(22));
        r
    } else if i == 23 {
        let r: Vec<&'static str> = vec![
            "management science",
            "operations research",
            "decision science",
            "管理科学",
            "运筹",
            "决策",
        ];
        assert(r@ == domestic_keywords(23));
        r
    } else if i == 24 {
        let r: Vec<&'static str> = vec![
            "business management",
            "organization",
            "strategy",
            "leadership",
            "marketing",
            "企业",
            "组织",
            "战略",
            "领导力",
            "营销",
        ];
        assert(r@ == domestic_keywords(24));
        r
    } else if i == 25 {
        let r: Vec<&'static str> = vec![
            "art",
            "aesthetic",
            "painting",
            "sculpture",
            "music",
            "dance",
            "theater",
            "film",
            "television",
            "calligraphy",
            "艺术",
            "艺术学",
            "美学",
            "绘画",
            "雕塑",
            "音乐",
            "舞蹈",
            "戏剧",
            "电影",
            "电视",
            "书法",
        ];
        assert(r@ == domestic_keywords(25));
        r
    } else if i == 26 {
        let r: Vec<&'static str> = vec![
            "design",
            "industrial design",
            "interaction design",
            "visual communication",
            "设计",
            "设计学",
            "工业设计",
            "交互设计",
            "视觉传达",
        ];
        assert(r@ == domestic_keywords(26));
        r
    } else if i == 27 {
        let r: Vec<&'static str> = vec!["artificial intelligence", "intelligent", "智能", "人工智能", "智能体", "智能科技"];
        assert(r@ == domestic_keywords(27));
        r
    } else {
        let r: Vec<&'static str> = vec![
            "intangible cultural heritage",
            "cultural heritage",
            "heritage",
            "heritage protection",
            "非遗",
            "非物质文化遗产",
            "文化遗产",
            "遗产保护",
            "传承",
        ];
        assert(r@ == domestic_keywords(28));
        r
    }
}

// ---------------------------------------------------------------------------
// International subject areas (ASJC)
// ---------------------------------------------------------------------------

pub const INTERNATIONAL_COUNT: usize = 22;

/// Supergroup of each subject area.
pub open spec fn international_groups() -> Seq<&'static str> {
    seq![
        "Computer Science",
        "Engineering",
        "Mathematics",
        "Physics and Astronomy",
        "Chemistry",
        "Biochemistry, Genetics and Molecular Biology",
        "Medicine",
        "Environmental Science",
        "Arts and Humanities",
        "Arts and Humanities",
        "Arts and Humanities",
        "Arts and Humanities",
        "Arts and Humanities",
        "Social Sciences",
        "Social Sciences",
        "Social Sciences",
        "Social Sciences",
        "Psychology",
        "Social Sciences",
        "Business, Management and Accounting",
        "Economics, Econometrics and Finance",
        "Social Sciences",
    ]
}

pub fn international_groups_v() -> (r: Vec<&'static str>)
    ensures
        r@ == international_groups(),
{
    let r = vec![
        "Computer Science",
        "Engineering",
        "Mathematics",
        "Physics and Astronomy",
        "Chemistry",
        "Biochemistry, Genetics and Molecular Biology",
        "Medicine",
        "Environmental Science",
        "Arts and Humanities",
        "Arts and Humanities",
        "Arts and Humanities",
        "Arts and Humanities",
        "Arts and Humanities",
        "Social Sciences",
        "Social Sciences",
        "Social Sciences",
        "Social Sciences",
        "Psychology",
        "Social Sciences",
        "Business, Management and Accounting",
        "Economics, Econometrics and Finance",
        "Social Sciences",
    ];
    assert(r@ == international_groups());
    r
}

/// ASJC code of each subject area.
pub open spec fn international_codes() -> Seq<&'static str> {
    seq![
        "1700",
        "2200",
        "2600",
        "3100",
        "1600",
        "1300",
        "2700",
        "2300",
        "1213",
        "1206",
        "1202",
        "1208",
        "1203",
        "3315",
        "3316",
        "3312",
        "3304",
        "3200",
        "3309",
        "1400",
        "2000",
        "3308",
    ]
}

pub fn international_codes_v() -> (r: Vec<&'static str>)
    ensures
        r@ == international_codes(),
{
    let r = vec![
        "1700",
        "2200",
        "2600",
        "3100",
        "1600",
        "1300",
        "2700",
        "2300",
        "1213",
        "1206",
        "1202",
        "1208",
        "1203",
        "3315",
        "3316",
        "3312",
        "3304",
        "3200",
        "3309",
        "1400",
        "2000",
        "3308",
    ];
    assert(r@ == international_codes());
    r
}

/// Name of each subject area.
pub open spec fn international_names() -> Seq<&'static str> {
    seq![
        "Computer Science",
        "Engineering",
        "Mathematics",
        "Physics and Astronomy",
        "Chemistry",
        "Biochemistry, Genetics and Molecular Biology",
        "Medicine",
        "Environmental Science",
        "Visual Arts and Performing Arts",
        "Conservation",
        "History",
        "Literature and Literary Theory",
        "Language and Linguistics",
        "Communication",
        "Cultural Studies",
        "Sociology and Political Science",
        "Education",
        "Psychology",
        "Library and Information Science",
        "Business, Management and Accounting",
        "Economics, Econometrics and Finance",
        "Law",
    ]
}

pub fn international_names_v() -> (r: Vec<&'static str>)
    ensures
        r@ == international_names(),
{
    let r = vec![
        "Computer Science",
        "Engineering",
        "Mathematics",
        "Physics and Astronomy",
        "Chemistry",
        "Biochemistry, Genetics and Molecular Biology",
        "Medicine",
        "Environmental Science",
        "Visual Arts and Performing Arts",
        "Conservation",
        "History",
        "Literature and Literary Theory",
        "Language and Linguistics",
        "Communication",
        "Cultural Studies",
        "Sociology and Political Science",
        "Education",
        "Psychology",
        "Library and Information Science",
        "Business, Management and Accounting",
        "Economics, Econometrics and Finance",
        "Law",
    ];
    assert(r@ == international_names());
    r
}

/// Signal words of subject area `i`.
pub open spec fn international_keywords(i: int) -> Seq<&'static str> {
    if i == 0 {
        seq![
            "computer science",
            "software",
            "algorithm",
            "programming",
            "dataset",
            "machine learning",
            "deep learning",
            "neural network",
            "benchmark",
            "计算机",
            "算法",
            "软件",
            "数据集",
            "机器学习",
            "深度学习",
            "程序",
            "神经网络",
        ]
    } else if i == 1 {
        seq![
            "engineering",
            "mechanical",
            "electrical",
            "civil engineering",
            "structural",
            "工程",
            "机械",
            "电气",
            "土木",
            "结构",
        ]
    } else if i == 2 {
        seq![
            "mathematics",
            "mathematical",
            "theorem",
            "proof",
            "algebra",
            "topology",
            "calculus",
            "probability",
            "数学",
            "定理",
            "证明",
            "代数",
            "拓扑",
            "微积分",
            "概率",
        ]
    } else if i == 3 {
        seq![
            "physics",
            "quantum",
            "particle",
            "electromagnetic",
            "relativity",
            "optics",
            "物理",
            "量子",
            "粒子",
            "电磁",
            "相对论",
            "光学",
        ]
    } else if i == 4 {
        seq![
            "chemistry",
            "molecule",
            "chemical",
            "synthesis",
            "reaction",
            "catalyst",
            "化学",
            "分子",
            "合成",
            "反应",
            "催化",
        ]
    } else if i == 5 {
        seq![
            "biology",
            "genome",
            "gene",
            "protein",
            "cell biology",
            "organism",
            "dna",
            "生物",
            "基因组",
            "基因",
            "蛋白质",
            "细胞",
            "有机体",
        ]
    } else if i == 6 {
        seq![
            "clinical",
            "patient",
            "disease",
            "surgery",
            "diagnosis",
            "therapy",
            "medical",
            "trial",
            "医学",
            "临床",
            "患者",
            "疾病",
            "手术",
            "诊断",
            "治疗",
        ]
    } else if i == 7 {
        seq![
            "environment",
            "climate change",
            "ecosystem",
            "pollution",
            "sustainability",
            "环境",
            "气候变化",
            "生态系统",
            "污染",
            "可持续",
        ]
    } else if i == 8 {
        seq![
            "art",
            "aesthetic",
            "painting",
            "sculpture",
            "music",
            "dance",
            "theater",
            "film",
            "television",
            "cinema",
            "艺术",
            "美学",
            "绘画",
            "雕塑",
            "音乐",
            "舞蹈",
            "戏剧",
            "电影",
            "电视",
            "影视",
        ]
    } else if i == 9 {
        seq![
            "conservation",
            "heritage",
            "museum",
            "preservation",
            "restoration",
            "artifact",
            "遗产",
            "博物馆",
            "保护",
            "修复",
            "文物",
        ]
    } else if i == 10 {
        seq![
            "history",
            "historical",
            "archive",
            "ancient",
            "historiography",
            "历史",
            "档案",
            "古代",
            "史学",
            "史料",
        ]
    } else if i == 11 {
        seq![
            "literature",
            "novel",
            "poetry",
            "fiction",
            "literary",
            "文学",
            "小说",
            "诗歌",
            "文学批评",
            "文本",
        ]
    } else if i == 12 {
        seq![
            "linguistics",
            "grammar",
            "phonology",
            "semantics",
            "syntax",
            "language",
            "语言学",
            "语言",
            "语法",
            "语音",
            "语义",
            "句法",
        ]
    } else if i == 13 {
        seq![
            "communication",
            "media",
            "journalism",
            "audience",
            "news",
            "propaganda",
            "传播",
            "媒介",
            "媒体",
            "受众",
            "新闻",
            "舆情",
            "宣传",
        ]
    } else if i == 14 {
        seq![
            "cultural studies",
            "cultural identity",
            "culture",
            "文化研究",
            "文化",
            "文化认同",
        ]
    } else if i == 15 {
        seq![
            "sociology",
            "society",
            "political",
            "government",
            "democracy",
            "policy",
            "社会",
            "政治",
            "政府",
            "民主",
            "政策",
        ]
    } else if i == 16 {
        seq![
            "education",
            "teaching",
            "curriculum",
            "pedagogy",
            "learning",
            "教育",
            "教学",
            "课程",
            "学习",
        ]
    } else if i == 17 {
        seq![
            "psychology",
            "cognitive",
            "behavior",
            "mental health",
            "perception",
            "memory",
            "emotion",
            "心理学",
            "认知",
            "行为",
            "心理",
            "知觉",
            "记忆",
            "情绪",
        ]
    } else if i == 18 {
        seq![
            "information science",
            "library science",
            "documentation",
            "情报学",
            "图书馆学",
            "信息科学",
        ]
    } else if i == 19 {
        seq![
            "management",
            "organization",
            "business",
            "strategy",
            "leadership",
            "accounting",
            "管理",
            "组织",
            "企业",
            "战略",
            "领导力",
            "会计",
        ]
    } else if i == 20 {
        seq![
            "economics",
            "economic",
            "market",
            "firm",
            "trade",
            "inflation",
            "finance",
            "financial",
            "asset",
            "portfolio",
            "经济",
            "经济学",
            "市场",
            "企业",
            "贸易",
            "金融",
            "资产",
            "股票",
        ]
    } else if i == 21 {
        seq![
            "legal",
            "law",
            "court",
            "legislation",
            "constitution",
            "judicial",
            "法学",
            "法律",
            "司法",
            "立法",
            "宪法",
        ]
    } else {
        seq![]
    }
}

pub fn international_keywords_v(i: usize) -> (r: Vec<&'static str>)
    requires
        i < 22,
    ensures
        r@ == international_keywords(i as int),
{
    if i == 0 {
        let r: Vec<&'static str> = vec![
            "computer science",
            "software",
            "algorithm",
            "programming",
            "dataset",
            "machine learning",
            "deep learning",
            "neural network",
            "benchmark",
            "计算机",
            "算法",
            "软件",
            "数据集",
            "机器学习",
            "深度学习",
            "程序",
            "神经网络",
        ];
        assert(r@ == international_keywords(0));
        r
    } else if i == 1 {
        let r: Vec<&'static str> = vec![
            "engineering",
            "mechanical",
            "electrical",
            "civil engineering",
            "structural",
            "工程",
            "机械",
            "电气",
            "土木",
            "结构",
        ];
        assert(r@ == international_keywords(1));
        r
    } else if i == 2 {
        let r: Vec<&'static str> = vec![
            "mathematics",
            "mathematical",
            "theorem",
            "proof",
            "algebra",
            "topology",
            "calculus",
            "probability",
            "数学",
            "定理",
            "证明",
            "代数",
            "拓扑",
            "微积分",
            "概率",
        ];
        assert(r@ == international_keywords(2));
        r
    } else if i == 3 {
        let r: Vec<&'static str> = vec![
            "physics",
            "quantum",
            "particle",
            "electromagnetic",
            "relativity",
            "optics",
            "物理",
            "量子",
            "粒子",
            "电磁",
            "相对论",
            "光学",
        ];
        assert(r@ == international_keywords(3));
        r
    } else if i == 4 {
        let r: Vec<&'static str> = vec![
            "chemistry",
            "molecule",
            "chemical",
            "synthesis",
            "reaction",
            "catalyst",
            "化学",
            "分子",
            "合成",
            "反应",
            "催化",
        ];
        assert(r@ == international_keywords(4));
        r
    } else if i == 5 {
        let r: Vec<&'static str> = vec![
            "biology",
            "genome",
            "gene",
            "protein",
            "cell biology",
            "organism",
            "dna",
            "生物",
            "基因组",
            "基因",
            "蛋白质",
            "细胞",
            "有机体",
        ];
        assert(r@ == international_keywords(5));
        r
    } else if i == 6 {
        let r: Vec<&'static str> = vec![
            "clinical",
            "patient",
            "disease",
            "surgery",
            "diagnosis",
            "therapy",
            "medical",
            "trial",
            "医学",
            "临床",
            "患者",
            "疾病",
            "手术",
            "诊断",
            "治疗",
        ];
        assert(r@ == international_keywords(6));
        r
    } else if i == 7 {
        let r: Vec<&'static str> = vec![
            "environment",
            "climate change",
            "ecosystem",
            "pollution",
            "sustainability",
            "环境",
            "气候变化",
            "生态系统",
            "污染",
            "可持续",
        ];
        assert(r@ == international_keywords(7));
        r
    } else if i == 8 {
        let r: Vec<&'static str> = vec![
            "art",
            "aesthetic",
            "painting",
            "sculpture",
            "music",
            "dance",
            "theater",
            "film",
            "television",
            "cinema",
            "艺术",
            "美学",
            "绘画",
            "雕塑",
            "音乐",
            "舞蹈",
            "戏剧",
            "电影",
            "电视",
            "影视",
        ];
        assert(r@ == international_keywords(8));
        r
    } else if i == 9 {
        let r: Vec<&'static str> = vec![
            "conservation",
            "heritage",
            "museum",
            "preservation",
            "restoration",
            "artifact",
            "遗产",
            "博物馆",
            "保护",
            "修复",
            "文物",
        ];
        assert(r@ == international_keywords(9));
        r
    } else if i == 10 {
        let r: Vec<&'static str> = vec![
            "history",
            "historical",
            "archive",
            "ancient",
            "historiography",
            "历史",
            "档案",
            "古代",
            "史学",
            "史料",
        ];
        assert(r@ == international_keywords(10));
        r
    } else if i == 11 {
        let r: Vec<&'static str> = vec![
            "literature",
            "novel",
            "poetry",
            "fiction",
            "literary",
            "文学",
            "小说",
            "诗歌",
            "文学批评",
            "文本",
        ];
        assert(r@ == international_keywords(11));
        r
    } else if i == 12 {
        let r: Vec<&'static str> = vec![
            "linguistics",
            "grammar",
            "phonology",
            "semantics",
            "syntax",
            "language",
            "语言学",
            "语言",
            "语法",
            "语音",
            "语义",
            "句法",
        ];
        assert(r@ == international_keywords(12));
        r
    } else if i == 13 {
        let r: Vec<&'static str> = vec![
            "communication",
            "media",
            "journalism",
            "audience",
            "news",
            "propaganda",
            "传播",
            "媒介",
            "媒体",
            "受众",
            "新闻",
            "舆情",
            "宣传",
        ];
        assert(r@ == international_keywords(13));
        r
    } else if i == 14 {
        let r: Vec<&'static str> = vec![
            "cultural studies",
            "cultural identity",
            "culture",
            "文化研究",
            "文化",
            "文化认同",
        ];
        assert(r@ == international_keywords(14));
        r
    } else if i == 15 {
        let r: Vec<&'static str> = vec![
            "sociology",
            "society",
            "political",
            "government",
            "democracy",
            "policy",
            "社会",
            "政治",
            "政府",
            "民主",
            "政策",
        ];
        assert(r@ == international_keywords(15));
        r
    } else if i == 16 {
        let r: Vec<&'static str> = vec![
            "education",
            "teaching",
            "curriculum",
            "pedagogy",
            "learning",
            "教育",
            "教学",
            "课程",
            "学习",
        ];
        assert(r@ == international_keywords(16));
        r
    } else if i == 17 {
        let r: Vec<&'static str> = vec![
            "psychology",
            "cognitive",
            "behavior",
            "mental health",
            "perception",
            "memory",
            "emotion",
            "心理学",
            "认知",
            "行为",
            "心理",
            "知觉",
            "记忆",
            "情绪",
        ];
        assert(r@ == international_keywords(17));
        r
    } else if i == 18 {
        let r: Vec<&'static str> = vec![
            "information science",
            "library science",
            "documentation",
            "情报学",
            "图书馆学",
            "信息科学",
        ];
        assert(r@ == international_keywords(18));
        r
    } else if i == 19 {
        let r: Vec<&'static str> = vec![
            "management",
            "organization",
            "business",
            "strategy",
            "leadership",
            "accounting",
            "管理",
            "组织",
            "企业",
            "战略",
            "领导力",
            "会计",
        ];
        assert(r@ == international_keywords(19));
        r
    } else if i == 20 {
        let r: Vec<&'static str> = vec![
            "economics",
            "economic",
            "market",
            "firm",
            "trade",
            "inflation",
            "finance",
            "financial",
            "asset",
            "portfolio",
            "经济",
            "经济学",
            "市场",
            "企业",
            "贸易",
            "金融",
            "资产",
            "股票",
        ];
        assert(r@ == international_keywords(20));
        r
    } else {
        let r: Vec<&'static str> = vec![
            "legal",
            "law",
            "court",
            "legislation",
            "constitution",
            "judicial",
            "法学",
            "法律",
            "司法",
            "立法",
            "宪法",
        ];
        assert(r@ == international_keywords(21));
        r
    }
}

// ---------------------------------------------------------------------------
// Research directions
// ---------------------------------------------------------------------------

pub const DIRECTION_COUNT: usize = 10;

/// Name of each research direction.
pub open spec fn direction_names() -> Seq<&'static str> {
    seq![
        "数字遗产与非遗数字化",
        "虚拟现实与沉浸式技术",
        "人工智能应用",
        "交互设计与互动叙事",
        "影视与视听传播",
        "媒介与平台研究",
        "文化传播与国际传播",
        "教育与学习",
        "智能传播与舆情",
        "设计与创意产业",
    ]
}

pub fn direction_names_v() -> (r: Vec<&'static str>)
    ensures
        r@ == direction_names(),
{
    let r = vec![
        "数字遗产与非遗数字化",
        "虚拟现实与沉浸式技术",
        "人工智能应用",
        "交互设计与互动叙事",
        "影视与视听传播",
        "媒介与平台研究",
        "文化传播与国际传播",
        "教育与学习",
        "智能传播与舆情",
        "设计与创意产业",
    ];
    assert(r@ == direction_names());
    r
}

/// Signal words of research direction `i`.
pub open spec fn direction_keywords(i: int) -> Seq<&'static str> {
    if i == 0 {
        seq![
            "heritage",
            "intangible cultural heritage",
            "digital heritage",
            "preservation",
            "数字化保护",
            "数字遗产",
            "非遗",
            "文化遗产",
            "遗产保护",
            "传承",
        ]
    } else if i == 1 {
        seq![
            "virtual reality",
            "vr",
            "augmented reality",
            "immersive",
            "虚拟现实",
            "增强现实",
            "沉浸",
            "xr",
            "ar",
        ]
    } else if i == 2 {
        seq![
            "artificial intelligence",
            "machine learning",
            "llm",
            "large language model",
            "deep learning",
            "人工智能",
            "机器学习",
            "大语言模型",
            "深度学习",
        ]
    } else if i == 3 {
        seq![
            "interactive",
            "interaction design",
            "narrative",
            "game",
            "storytelling",
            "交互",
            "互动",
            "叙事",
            "游戏",
        ]
    } else if i == 4 {
        seq![
            "film",
            "cinema",
            "television",
            "video",
            "audiovisual",
            "短视频",
            "影视",
            "视听",
            "电影",
            "电视",
        ]
    } else if i == 5 {
        seq![
            "social media",
            "platform",
            "digital media",
            "社交媒体",
            "平台",
            "数字媒体",
            "新媒体",
        ]
    } else if i == 6 {
        seq![
            "cultural communication",
            "cross-cultural",
            "international communication",
            "文化传播",
            "跨文化",
            "国际传播",
        ]
    } else if i == 7 {
        seq!["education", "learning", "teaching", "training", "教育", "教学", "学习"]
    } else if i == 8 {
        seq!["public opinion", "sentiment", "disinformation", "舆情", "舆论", "虚假信息"]
    } else if i == 9 {
        seq![
            "creative industry",
            "design thinking",
            "innovation",
            "创意产业",
            "设计思维",
            "创新",
        ]
    } else {
        seq![]
    }
}

pub fn direction_keywords_v(i: usize) -> (r: Vec<&'static str>)
    requires
        i < 10,
    ensures
        r@ == direction_keywords(i as int),
{
    if i == 0 {
        let r: Vec<&'static str> = vec![
            "heritage",
            "intangible cultural heritage",
            "digital heritage",
            "preservation",
            "数字化保护",
            "数字遗产",
            "非遗",
            "文化遗产",
            "遗产保护",
            "传承",
        ];
        assert(r@ == direction_keywords(0));
        r
    } else if i == 1 {
        let r: Vec<&'static str> = vec![
            "virtual reality",
            "vr",
            "augmented reality",
            "immersive",
            "虚拟现实",
            "增强现实",
            "沉浸",
            "xr",
            "ar",
        ];
        assert(r@ == direction_keywords(1));
        r
    } else if i == 2 {
        let r: Vec<&'static str> = vec![
            "artificial intelligence",
            "machine learning",
            "llm",
            "large language model",
            "deep learning",
            "人工智能",
            "机器学习",
            "大语言模型",
            "深度学习",
        ];
        assert(r@ == direction_keywords(2));
        r
    } else if i == 3 {
        let r: Vec<&'static str> = vec![
            "interactive",
            "interaction design",
            "narrative",
            "game",
            "storytelling",
            "交互",
            "互动",
            "叙事",
            "游戏",
        ];
        assert(r@ == direction_keywords(3));
        r
    } else if i == 4 {
        let r: Vec<&'static str> = vec![
            "film",
            "cinema",
            "television",
            "video",
            "audiovisual",
            "短视频",
            "影视",
            "视听",
            "电影",
            "电视",
        ];
        assert(r@ == direction_keywords(4));
        r
    } else if i == 5 {
        let r: Vec<&'static str> = vec![
            "social media",
            "platform",
            "digital media",
            "社交媒体",
            "平台",
            "数字媒体",
            "新媒体",
        ];
        assert(r@ == direction_keywords(5));
        r
    } else if i == 6 {
        let r: Vec<&'static str> = vec![
            "cultural communication",
            "cross-cultural",
            "international communication",
            "文化传播",
            "跨文化",
            "国际传播",
        ];
        assert(r@ == direction_keywords(6));
        r
    } else if i == 7 {
        let r: Vec<&'static str> = vec!["education", "learning", "teaching", "training", "教育", "教学", "学习"];
        assert(r@ == direction_keywords(7));
        r
    } else if i == 8 {
        let r: Vec<&'static str> = vec!["public opinion", "sentiment", "disinformation", "舆情", "舆论", "虚假信息"];
        assert(r@ == direction_keywords(8));
        r
    } else {
        let r: Vec<&'static str> = vec![
            "creative industry",
            "design thinking",
            "innovation",
            "创意产业",
            "设计思维",
            "创新",
        ];
        assert(r@ == direction_keywords(9));
        r
    }
}

} // verus!
