//! Field templates and the routing engine that assembles the digest fields
//! of a paper: the common fields, the fields of the primary paradigm, those
//! of qualifying secondary paradigms and, for multi-discipline crosses, the
//! cross-dialogue fields. On a name clash the earlier field wins (manual >
//! primary > secondary).
use vstd::prelude::*;
use crate::lexicon::{paradigm_ids, paradigm_ids_v, PARADIGM_COUNT};
use crate::paradigm::{
    clone_strings, lit_views, str_views, ParadigmRecognition, RecognitionView, SecondaryView,
    secondary_views_of,
};
use crate::rank::{indices_below, lemma_rank_below, rank_desc, rank_v};
use crate::text::{chars_of, eq_v};

verus! {

/// One digest field.
#[derive(Clone, Debug)]
pub struct FieldDef {
    /// Identifier (English).
    pub name: String,
    /// Display label.
    pub label: String,
    /// string / integer / list[string] / text / table / image / enum / code
    pub ftype: String,
    pub description: String,
    pub required: bool,
    /// The admissible values of an `enum` field.
    pub enum_values: Vec<String>,
    /// Where the field comes from: common, primary or secondary paradigm, or
    /// the cross dialogue.
    pub source: String,
}

pub struct FieldView {
    pub name: Seq<char>,
    pub label: Seq<char>,
    pub ftype: Seq<char>,
    pub description: Seq<char>,
    pub required: bool,
    pub enum_values: Seq<Seq<char>>,
    pub source: Seq<char>,
}

impl View for FieldDef {
    type V = FieldView;

    open spec fn view(&self) -> FieldView {
        FieldView {
            name: self.name@,
            label: self.label@,
            ftype: self.ftype@,
            description: self.description@,
            required: self.required,
            enum_values: str_views(self.enum_values@),
            source: self.source@,
        }
    }
}

pub open spec fn field_views(v: Seq<FieldDef>) -> Seq<FieldView> {
    v.map_values(|x: FieldDef| x@)
}

/// The assembled field plan.
#[derive(Clone, Debug)]
pub struct FieldPlan {
    pub paradigm_id: String,
    pub paradigm_name: String,
    /// 单学科 / 双学科交叉 / 多学科交叉
    pub cross_type: String,
    pub combine_strategy: String,
    /// Common, then primary, then secondary, then cross-dialogue fields.
    pub fields: Vec<FieldDef>,
    pub count: usize,
    /// How clashes were resolved.
    pub notes: Vec<String>,
}

pub struct PlanView {
    pub paradigm_id: Seq<char>,
    pub paradigm_name: Seq<char>,
    pub cross_type: Seq<char>,
    pub combine_strategy: Seq<char>,
    pub fields: Seq<FieldView>,
    pub count: int,
    pub notes: Seq<Seq<char>>,
}

impl View for FieldPlan {
    type V = PlanView;

    open spec fn view(&self) -> PlanView {
        PlanView {
            paradigm_id: self.paradigm_id@,
            paradigm_name: self.paradigm_name@,
            cross_type: self.cross_type@,
            combine_strategy: self.combine_strategy@,
            fields: field_views(self.fields@),
            count: self.count as int,
            notes: str_views(self.notes@),
        }
    }
}

/// A plain field as the templates write it.
pub open spec fn fs(
    name: Seq<char>,
    label: Seq<char>,
    ftype: Seq<char>,
    required: bool,
    description: Seq<char>,
) -> FieldView {
    FieldView {
        name,
        label,
        ftype,
        description,
        required,
        enum_values: Seq::empty(),
        source: Seq::empty(),
    }
}

/// An `enum` field as the templates write it.
pub open spec fn fse(
    name: Seq<char>,
    label: Seq<char>,
    required: bool,
    description: Seq<char>,
    enums: Seq<&'static str>,
) -> FieldView {
    FieldView {
        name,
        label,
        ftype: "enum"@,
        description,
        required,
        enum_values: lit_views(enums),
        source: Seq::empty(),
    }
}

fn text_of(s: &str) -> (r: String)
    ensures
        r@ == s@,
{
    let mut r = String::new();
    r.append(s);
    r
}

fn f(name: &str, label: &str, ftype: &str, required: bool, description: &str) -> (r: FieldDef)
    ensures
        r@ == fs(name@, label@, ftype@, required, description@),
{
    let r = FieldDef {
        name: text_of(name),
        label: text_of(label),
        ftype: text_of(ftype),
        description: text_of(description),
        required,
        enum_values: Vec::new(),
        source: String::new(),
    };
    assert(r@.enum_values =~= Seq::<Seq<char>>::empty());
    r
}

fn fe(name: &str, label: &str, required: bool, description: &str, enums: Vec<&'static str>) -> (r:
    FieldDef)
    ensures
        r@ == fse(name@, label@, required, description@, enums@),
{
    let mut vals: Vec<String> = Vec::new();
    let mut i: usize = 0;
    while i < enums.len()
        invariant
            i <= enums.len(),
            str_views(vals@) == lit_views(enums@.take(i as int)),
        decreases enums.len() - i,
    {
        let ghost before = str_views(vals@);
        vals.push(text_of(enums[i]));
        proof {
            assert(str_views(vals@) =~= before.push(enums@[i as int]@));
            assert(lit_views(enums@.take(i + 1)) =~= lit_views(enums@.take(i as int)).push(
                enums@[i as int]@,
            ));
        }
        i += 1;
    }
    assert(enums@.take(enums.len() as int) =~= enums@);
    FieldDef {
        name: text_of(name),
        label: text_of(label),
        ftype: text_of("enum"),
        description: text_of(description),
        required,
        enum_values: vals,
        source: String::new(),
    }
}

/// The ten fields every paradigm shares.
pub open spec fn common_fields_spec() -> Seq<FieldView> {
    seq![
        fs("title"@, "标题"@, "string"@, true, "论文标题"@),
        fs("authors"@, "作者"@, "list[string]"@, true, "作者列表"@),
        fs("year"@, "发表年份"@, "integer"@, true, "发表年份"@),
        fs("source"@, "来源"@, "string"@, false, "期刊/会议/出版社"@),
        fs("doi"@, "DOI"@, "string"@, false, "数字对象标识符"@),
        fs("abstract"@, "摘要"@, "text"@, false, "论文摘要"@),
        fs("keywords"@, "关键词"@, "list[string]"@, false, "关键词列表"@),
        fs("research_question"@, "研究问题/目标/假设"@, "text"@, false, "研究问题/目标/假设"@),
        fs("main_finding"@, "主要发现/结论"@, "text"@, false, "主要发现/结论"@),
        fse("knowledge_contribution"@, "知识贡献类型"@, false, "论文的知识贡献类型"@, seq!["新理论", "新方法", "新数据", "新证据", "新设计", "新综述", "新应用"]),
    ]
}

fn common_fields() -> (r: Vec<FieldDef>)
    ensures
        field_views(r@) == common_fields_spec(),
{
    let r = vec![
        f("title", "标题", "string", true, "论文标题"),
        f("authors", "作者", "list[string]", true, "作者列表"),
        f("year", "发表年份", "integer", true, "发表年份"),
        f("source", "来源", "string", false, "期刊/会议/出版社"),
        f("doi", "DOI", "string", false, "数字对象标识符"),
        f("abstract", "摘要", "text", false, "论文摘要"),
        f("keywords", "关键词", "list[string]", false, "关键词列表"),
        f("research_question", "研究问题/目标/假设", "text", false, "研究问题/目标/假设"),
        f("main_finding", "主要发现/结论", "text", false, "主要发现/结论"),
        fe("knowledge_contribution", "知识贡献类型", false, "论文的知识贡献类型", vec!["新理论", "新方法", "新数据", "新证据", "新设计", "新综述", "新应用"]),
    ];
    assert(field_views(r@) =~= common_fields_spec());
    r
}

/// Fields of the experimental-comparison paradigm.
pub open spec fn experimental_fields_spec() -> Seq<FieldView> {
    seq![
        fs("dataset_name"@, "数据集"@, "string"@, false, "使用的数据集名称"@),
        fs("dataset_statistics"@, "数据集统计信息"@, "table"@, false, "数据集统计信息（大小/类别分布等）"@),
        fs("baseline_methods"@, "基线/SOTA 方法"@, "list[string]"@, false, "对比的基线/SOTA 方法列表"@),
        fs("evaluation_metrics"@, "评价指标"@, "list[string]"@, false, "评价指标（accuracy, F1, BLEU, PSNR 等）"@),
        fs("main_results_table"@, "核心结果对比表"@, "table"@, false, "核心结果对比表"@),
        fs("ablation_study"@, "消融实验"@, "table"@, false, "消融实验结果"@),
        fs("experimental_setup"@, "实验环境配置"@, "text"@, false, "实验环境配置（硬件/超参数/框架版本）"@),
        fs("reproducibility"@, "可复现性声明"@, "string"@, false, "代码/数据可复现性声明"@),
        fs("sota_comparison"@, "与 SOTA 对比分析"@, "text"@, false, "与 SOTA 方法的定性定量对比分析"@),
    ]
}

fn experimental_fields() -> (r: Vec<FieldDef>)
    ensures
        field_views(r@) == experimental_fields_spec(),
{
    let r = vec![
        f("dataset_name", "数据集", "string", false, "使用的数据集名称"),
        f("dataset_statistics", "数据集统计信息", "table", false, "数据集统计信息（大小/类别分布等）"),
        f("baseline_methods", "基线/SOTA 方法", "list[string]", false, "对比的基线/SOTA 方法列表"),
        f("evaluation_metrics", "评价指标", "list[string]", false, "评价指标（accuracy, F1, BLEU, PSNR 等）"),
        f("main_results_table", "核心结果对比表", "table", false, "核心结果对比表"),
        f("ablation_study", "消融实验", "table", false, "消融实验结果"),
        f("experimental_setup", "实验环境配置", "text", false, "实验环境配置（硬件/超参数/框架版本）"),
        f("reproducibility", "可复现性声明", "string", false, "代码/数据可复现性声明"),
        f("sota_comparison", "与 SOTA 对比分析", "text", false, "与 SOTA 方法的定性定量对比分析"),
    ];
    assert(field_views(r@) =~= experimental_fields_spec());
    r
}

/// Fields of the randomized-controlled-trial paradigm.
pub open spec fn rct_fields_spec() -> Seq<FieldView> {
    seq![
        fse("trial_design"@, "试验设计"@, false, "试验设计类型"@, seq!["平行组", "交叉设计", "析因设计", "非劣效", "等效性", "集群随机"]),
        fs("randomization_method"@, "随机化方法"@, "string"@, false, "随机化方法（简单随机/区组随机/分层随机）"@),
        fs("allocation_concealment"@, "分配隐藏"@, "string"@, false, "分配隐藏机制"@),
        fse("blinding"@, "盲法"@, false, "盲法类型"@, seq!["开放", "单盲", "双盲", "三盲", "评估者盲"]),
        fs("sample_size"@, "样本量"@, "integer"@, false, "随机化样本量"@),
        fs("sample_size_estimation"@, "样本量估算依据"@, "text"@, false, "样本量估算依据"@),
        fs("intervention"@, "干预措施"@, "text"@, false, "干预措施详细描述"@),
        fs("control_condition"@, "对照条件"@, "text"@, false, "对照条件"@),
        fs("primary_outcome"@, "主要结局指标"@, "text"@, false, "主要结局指标"@),
        fs("secondary_outcomes"@, "次要结局指标"@, "list[string]"@, false, "次要结局指标"@),
        fs("consort_flow"@, "CONSORT 流程图"@, "image"@, false, "CONSORT 流程图"@),
        fs("ethics_approval"@, "伦理审批"@, "string"@, false, "伦理审批机构与编号"@),
        fs("trial_registration"@, "试验注册"@, "string"@, false, "试验注册号/平台"@),
        fs("harms"@, "不良事件"@, "text"@, false, "不良事件报告"@),
    ]
}

fn rct_fields() -> (r: Vec<FieldDef>)
    ensures
        field_views(r@) == rct_fields_spec(),
{
    let r = vec![
        fe("trial_design", "试验设计", false, "试验设计类型", vec!["平行组", "交叉设计", "析因设计", "非劣效", "等效性", "集群随机"]),
        f("randomization_method", "随机化方法", "string", false, "随机化方法（简单随机/区组随机/分层随机）"),
        f("allocation_concealment", "分配隐藏", "string", false, "分配隐藏机制"),
        fe("blinding", "盲法", false, "盲法类型", vec!["开放", "单盲", "双盲", "三盲", "评估者盲"]),
        f("sample_size", "样本量", "integer", false, "随机化样本量"),
        f("sample_size_estimation", "样本量估算依据", "text", false, "样本量估算依据"),
        f("intervention", "干预措施", "text", false, "干预措施详细描述"),
        f("control_condition", "对照条件", "text", false, "对照条件"),
        f("primary_outcome", "主要结局指标", "text", false, "主要结局指标"),
        f("secondary_outcomes", "次要结局指标", "list[string]", false, "次要结局指标"),
        f("consort_flow", "CONSORT 流程图", "image", false, "CONSORT 流程图"),
        f("ethics_approval", "伦理审批", "string", false, "伦理审批机构与编号"),
        f("trial_registration", "试验注册", "string", false, "试验注册号/平台"),
        f("harms", "不良事件", "text", false, "不良事件报告"),
    ];
    assert(field_views(r@) =~= rct_fields_spec());
    r
}

/// Fields of the empirical-statistics paradigm.
pub open spec fn empirical_fields_spec() -> Seq<FieldView> {
    seq![
        fs("theoretical_framework"@, "理论框架/假设"@, "text"@, false, "理论框架/假设推导"@),
        fs("data_source"@, "数据来源"@, "string"@, false, "数据来源（数据库/调查/实验/面板）"@),
        fs("sample_description"@, "样本描述"@, "text"@, false, "样本描述（时间范围/样本量/筛选条件）"@),
        fs("descriptive_statistics"@, "描述性统计"@, "table"@, false, "描述性统计表"@),
        fs("identification_strategy"@, "识别策略"@, "string"@, false, "识别策略（OLS/DID/IV/RDD/Heckman/PSM）"@),
        fs("main_regression"@, "核心回归结果"@, "table"@, false, "核心回归结果表"@),
        fs("robustness_checks"@, "稳健性检验"@, "list[string]"@, false, "稳健性检验列表"@),
        fs("endogeneity"@, "内生性处理"@, "text"@, false, "内生性处理说明"@),
        fs("heterogeneity_analysis"@, "异质性分析"@, "table"@, false, "异质性分析结果"@),
        fs("mechanism_analysis"@, "机制/中介分析"@, "text"@, false, "机制/中介效应分析"@),
    ]
}

fn empirical_fields() -> (r: Vec<FieldDef>)
    ensures
        field_views(r@) == empirical_fields_spec(),
{
    let r = vec![
        f("theoretical_framework", "理论框架/假设", "text", false, "理论框架/假设推导"),
        f("data_source", "数据来源", "string", false, "数据来源（数据库/调查/实验/面板）"),
        f("sample_description", "样本描述", "text", false, "样本描述（时间范围/样本量/筛选条件）"),
        f("descriptive_statistics", "描述性统计", "table", false, "描述性统计表"),
        f("identification_strategy", "识别策略", "string", false, "识别策略（OLS/DID/IV/RDD/Heckman/PSM）"),
        f("main_regression", "核心回归结果", "table", false, "核心回归结果表"),
        f("robustness_checks", "稳健性检验", "list[string]", false, "稳健性检验列表"),
        f("endogeneity", "内生性处理", "text", false, "内生性处理说明"),
        f("heterogeneity_analysis", "异质性分析", "table", false, "异质性分析结果"),
        f("mechanism_analysis", "机制/中介分析", "text", false, "机制/中介效应分析"),
    ];
    assert(field_views(r@) =~= empirical_fields_spec());
    r
}

/// Fields of the theoretical-argument paradigm.
pub open spec fn theoretical_fields_spec() -> Seq<FieldView> {
    seq![
        fs("thesis_statement"@, "核心论点"@, "text"@, false, "核心论点/命题"@),
        fs("concept_definitions"@, "关键概念界定"@, "list[string]"@, false, "关键概念界定"@),
        fs("argument_structure"@, "论证结构"@, "text"@, false, "论证结构/推理路径"@),
        fs("intellectual_lineage"@, "思想谱系定位"@, "text"@, false, "思想脉络/学术谱系定位"@),
        fs("key_sources"@, "对话/批判对象"@, "list[string]"@, false, "主要对话/批判的已有理论"@),
        fs("objections"@, "反驳与回应"@, "list[string]"@, false, "反驳与回应"@),
        fs("implications"@, "理论含义"@, "text"@, false, "理论含义/推论"@),
        fs("contribution"@, "理论贡献"@, "text"@, false, "理论贡献（澄清/反驳/拓展/综合）"@),
    ]
}

fn theoretical_fields() -> (r: Vec<FieldDef>)
    ensures
        field_views(r@) == theoretical_fields_spec(),
{
    let r = vec![
        f("thesis_statement", "核心论点", "text", false, "核心论点/命题"),
        f("concept_definitions", "关键概念界定", "list[string]", false, "关键概念界定"),
        f("argument_structure", "论证结构", "text", false, "论证结构/推理路径"),
        f("intellectual_lineage", "思想谱系定位", "text", false, "思想脉络/学术谱系定位"),
        f("key_sources", "对话/批判对象", "list[string]", false, "主要对话/批判的已有理论"),
        f("objections", "反驳与回应", "list[string]", false, "反驳与回应"),
        f("implications", "理论含义", "text", false, "理论含义/推论"),
        f("contribution", "理论贡献", "text", false, "理论贡献（澄清/反驳/拓展/综合）"),
    ];
    assert(field_views(r@) =~= theoretical_fields_spec());
    r
}

/// Fields of the case-study paradigm.
pub open spec fn case_fields_spec() -> Seq<FieldView> {
    seq![
        fs("case_selection"@, "案例选择依据"@, "text"@, false, "案例选择依据（典型性/极端性/方便性）"@),
        fs("unit_of_analysis"@, "分析单元"@, "string"@, false, "分析单元"@),
        fs("data_collection"@, "数据收集方法"@, "list[string]"@, false, "数据收集方法（访谈/观察/文档/档案）"@),
        fs("number_of_sources"@, "证据来源数量"@, "integer"@, false, "证据来源数量"@),
        fs("triangulation"@, "三角验证"@, "text"@, false, "三角验证方法"@),
        fs("analysis_method"@, "分析方法"@, "string"@, false, "分析方法（模式匹配/解释构建/时序分析/逻辑模型/跨案例综合）"@),
        fs("case_description"@, "案例描述"@, "text"@, false, "案例描述"@),
        fs("propositions"@, "理论命题"@, "list[string]"@, false, "理论命题"@),
        fs("cross_case_patterns"@, "跨案例模式对比表"@, "table"@, false, "跨案例模式对比表"@),
    ]
}

fn case_fields() -> (r: Vec<FieldDef>)
    ensures
        field_views(r@) == case_fields_spec(),
{
    let r = vec![
        f("case_selection", "案例选择依据", "text", false, "案例选择依据（典型性/极端性/方便性）"),
        f("unit_of_analysis", "分析单元", "string", false, "分析单元"),
        f("data_collection", "数据收集方法", "list[string]", false, "数据收集方法（访谈/观察/文档/档案）"),
        f("number_of_sources", "证据来源数量", "integer", false, "证据来源数量"),
        f("triangulation", "三角验证", "text", false, "三角验证方法"),
        f("analysis_method", "分析方法", "string", false, "分析方法（模式匹配/解释构建/时序分析/逻辑模型/跨案例综合）"),
        f("case_description", "案例描述", "text", false, "案例描述"),
        f("propositions", "理论命题", "list[string]", false, "理论命题"),
        f("cross_case_patterns", "跨案例模式对比表", "table", false, "跨案例模式对比表"),
    ];
    assert(field_views(r@) =~= case_fields_spec());
    r
}

/// Fields of the review and meta-analysis paradigm.
pub open spec fn systematic_review_fields_spec() -> Seq<FieldView> {
    seq![
        fs("review_question"@, "综述问题"@, "text"@, false, "综述问题（PICO/PICo 框架）"@),
        fs("search_strategy"@, "检索策略"@, "text"@, false, "检索策略（数据库/关键词/时间范围）"@),
        fs("inclusion_criteria"@, "纳入标准"@, "list[string]"@, false, "纳入标准"@),
        fs("exclusion_criteria"@, "排除标准"@, "list[string]"@, false, "排除标准"@),
        fs("prisma_flow"@, "PRISMA 流程图"@, "image"@, false, "PRISMA 筛选流程图"@),
        fs("total_records"@, "初始检索记录数"@, "integer"@, false, "初始检索记录数"@),
        fs("included_studies"@, "最终纳入研究数"@, "integer"@, false, "最终纳入研究数"@),
        fs("quality_assessment"@, "质量评估工具"@, "string"@, false, "质量评估工具（Cochrane ROB/AMSTAR/NOS 等）"@),
        fs("data_extraction"@, "数据提取表"@, "table"@, false, "数据提取表"@),
        fse("synthesis_method"@, "综合方法"@, false, "证据综合方法"@, seq!["叙述性综合", "元分析", "主题综合", "元人种志", "现实综合"]),
        fs("heterogeneity"@, "异质性评估"@, "text"@, false, "异质性评估（I² 统计量/亚组分析）"@),
        fs("publication_bias"@, "发表偏倚"@, "text"@, false, "发表偏倚评估（漏斗图/Egger 检验）"@),
        fs("certainty_evidence"@, "证据确定性"@, "string"@, false, "证据确定性等级（GRADE 等）"@),
    ]
}

fn systematic_review_fields() -> (r: Vec<FieldDef>)
    ensures
        field_views(r@) == systematic_review_fields_spec(),
{
    let r = vec![
        f("review_question", "综述问题", "text", false, "综述问题（PICO/PICo 框架）"),
        f("search_strategy", "检索策略", "text", false, "检索策略（数据库/关键词/时间范围）"),
        f("inclusion_criteria", "纳入标准", "list[string]", false, "纳入标准"),
        f("exclusion_criteria", "排除标准", "list[string]", false, "排除标准"),
        f("prisma_flow", "PRISMA 流程图", "image", false, "PRISMA 筛选流程图"),
        f("total_records", "初始检索记录数", "integer", false, "初始检索记录数"),
        f("included_studies", "最终纳入研究数", "integer", false, "最终纳入研究数"),
        f("quality_assessment", "质量评估工具", "string", false, "质量评估工具（Cochrane ROB/AMSTAR/NOS 等）"),
        f("data_extraction", "数据提取表", "table", false, "数据提取表"),
        fe("synthesis_method", "综合方法", false, "证据综合方法", vec!["叙述性综合", "元分析", "主题综合", "元人种志", "现实综合"]),
        f("heterogeneity", "异质性评估", "text", false, "异质性评估（I² 统计量/亚组分析）"),
        f("publication_bias", "发表偏倚", "text", false, "发表偏倚评估（漏斗图/Egger 检验）"),
        f("certainty_evidence", "证据确定性", "string", false, "证据确定性等级（GRADE 等）"),
    ];
    assert(field_views(r@) =~= systematic_review_fields_spec());
    r
}

/// Fields of the computational-simulation paradigm.
pub open spec fn computational_fields_spec() -> Seq<FieldView> {
    seq![
        fs("model_assumptions"@, "模型假设"@, "text"@, false, "模型假设与简化条件"@),
        fs("mathematical_formulation"@, "数学公式化"@, "text"@, false, "数学公式化（控制方程/边界条件/初始条件）"@),
        fs("numerical_method"@, "数值方法"@, "string"@, false, "数值方法（FEM/FVM/FDM/SPH 等）"@),
        fs("mesh_description"@, "网格/离散化"@, "text"@, false, "网格/离散化描述"@),
        fs("verification"@, "验证（Verification）"@, "text"@, false, "验证（Verification：代码正确性、收敛性分析）"@),
        fs("validation"@, "确认（Validation）"@, "text"@, false, "确认（Validation：与实验/理论/解析解对比）"@),
        fs("validation_metrics"@, "确认指标"@, "list[string]"@, false, "确认指标（误差指标/相关性系数）"@),
        fs("parameter_settings"@, "参数设置表"@, "table"@, false, "关键参数设置表"@),
        fs("simulation_results"@, "仿真结果"@, "image"@, false, "仿真结果可视化"@),
        fs("uncertainty_quantification"@, "不确定性量化"@, "text"@, false, "不确定性量化方法"@),
    ]
}

fn computational_fields() -> (r: Vec<FieldDef>)
    ensures
        field_views(r@) == computational_fields_spec(),
{
    let r = vec![
        f("model_assumptions", "模型假设", "text", false, "模型假设与简化条件"),
        f("mathematical_formulation", "数学公式化", "text", false, "数学公式化（控制方程/边界条件/初始条件）"),
        f("numerical_method", "数值方法", "string", false, "数值方法（FEM/FVM/FDM/SPH 等）"),
        f("mesh_description", "网格/离散化", "text", false, "网格/离散化描述"),
        f("verification", "验证（Verification）", "text", false, "验证（Verification：代码正确性、收敛性分析）"),
        f("validation", "确认（Validation）", "text", false, "确认（Validation：与实验/理论/解析解对比）"),
        f("validation_metrics", "确认指标", "list[string]", false, "确认指标（误差指标/相关性系数）"),
        f("parameter_settings", "参数设置表", "table", false, "关键参数设置表"),
        f("simulation_results", "仿真结果", "image", false, "仿真结果可视化"),
        f("uncertainty_quantification", "不确定性量化", "text", false, "不确定性量化方法"),
    ];
    assert(field_views(r@) =~= computational_fields_spec());
    r
}

/// Fields of the design-science paradigm.
pub open spec fn design_science_fields_spec() -> Seq<FieldView> {
    seq![
        fs("problem_identification"@, "问题识别与动机"@, "text"@, false, "问题识别与动机"@),
        fs("objectives"@, "目标定义"@, "list[string]"@, false, "解决方案目标定义"@),
        fs("design_principles"@, "设计原则"@, "list[string]"@, false, "设计原则/设计理论"@),
        fs("artifact_description"@, "构件描述"@, "text"@, false, "构件描述（系统/方法/模型/框架）"@),
        fs("demonstration"@, "演示场景"@, "text"@, false, "演示场景/应用实例"@),
        fs("evaluation_method"@, "评估方法"@, "string"@, false, "评估方法（实验/用户研究/案例/调查）"@),
        fs("evaluation_results"@, "评估结果"@, "table"@, false, "评估结果"@),
        fs("design_theory_contribution"@, "设计理论贡献"@, "text"@, false, "设计理论贡献"@),
    ]
}

fn design_science_fields() -> (r: Vec<FieldDef>)
    ensures
        field_views(r@) == design_science_fields_spec(),
{
    let r = vec![
        f("problem_identification", "问题识别与动机", "text", false, "问题识别与动机"),
        f("objectives", "目标定义", "list[string]", false, "解决方案目标定义"),
        f("design_principles", "设计原则", "list[string]", false, "设计原则/设计理论"),
        f("artifact_description", "构件描述", "text", false, "构件描述（系统/方法/模型/框架）"),
        f("demonstration", "演示场景", "text", false, "演示场景/应用实例"),
        f("evaluation_method", "评估方法", "string", false, "评估方法（实验/用户研究/案例/调查）"),
        f("evaluation_results", "评估结果", "table", false, "评估结果"),
        f("design_theory_contribution", "设计理论贡献", "text", false, "设计理论贡献"),
    ];
    assert(field_views(r@) =~= design_science_fields_spec());
    r
}

/// The four cross-discipline dialogue fields, added for multi-discipline crosses.
pub open spec fn cross_dialogue_fields_spec() -> Seq<FieldView> {
    seq![
        fs("cross_points"@, "学科交叉点"@, "list[string]"@, false, "学科间真正的交叉点/结合处"@),
        fs("integration_contribution"@, "交叉整合贡献"@, "text"@, false, "交叉整合产生的增量贡献"@),
        fs("tension_points"@, "学科张力点"@, "list[string]"@, false, "学科间张力/矛盾处"@),
        fs("borrowed_methods"@, "借用方法/概念"@, "list[string]"@, false, "从其他学科借用的方法/概念"@),
    ]
}

fn cross_dialogue_fields() -> (r: Vec<FieldDef>)
    ensures
        field_views(r@) == cross_dialogue_fields_spec(),
{
    let r = vec![
        f("cross_points", "学科交叉点", "list[string]", false, "学科间真正的交叉点/结合处"),
        f("integration_contribution", "交叉整合贡献", "text", false, "交叉整合产生的增量贡献"),
        f("tension_points", "学科张力点", "list[string]", false, "学科间张力/矛盾处"),
        f("borrowed_methods", "借用方法/概念", "list[string]", false, "从其他学科借用的方法/概念"),
    ];
    assert(field_views(r@) =~= cross_dialogue_fields_spec());
    r
}
// ---------------------------------------------------------------------------
// Routing
// ---------------------------------------------------------------------------

/// Short display names of the paradigms, in the order of `paradigm_ids`.
pub open spec fn short_names() -> Seq<&'static str> {
    seq![
        "实验对比型",
        "对照实验型",
        "实证统计型",
        "理论论述型",
        "案例研究型",
        "综述元分析型",
        "计算模拟型",
        "设计与构建型",
    ]
}

fn short_names_v() -> (r: Vec<&'static str>)
    ensures
        r@ == short_names(),
{
    let r = vec![
        "实验对比型",
        "对照实验型",
        "实证统计型",
        "理论论述型",
        "案例研究型",
        "综述元分析型",
        "计算模拟型",
        "设计与构建型",
    ];
    assert(r@ == short_names());
    r
}

/// Position of `id` among the paradigm identifiers from `k` on, or -1.
pub open spec fn index_from(id: Seq<char>, k: int) -> int
    decreases PARADIGM_COUNT - k,
{
    if k < 0 || k >= PARADIGM_COUNT {
        -1
    } else if paradigm_ids()[k]@ == id {
        k
    } else {
        index_from(id, k + 1)
    }
}

pub open spec fn paradigm_index(id: Seq<char>) -> int {
    index_from(id, 0)
}

/// Short display name of a paradigm identifier (the identifier itself when
/// it is unknown).
pub open spec fn short_name(id: Seq<char>) -> Seq<char> {
    let k = paradigm_index(id);
    if k >= 0 {
        short_names()[k]@
    } else {
        id
    }
}

/// The template fields of a paradigm (none for an unknown identifier).
pub open spec fn specific_fields_spec(id: Seq<char>) -> Seq<FieldView> {
    let k = paradigm_index(id);
    if k == 0 {
        experimental_fields_spec()
    } else if k == 1 {
        rct_fields_spec()
    } else if k == 2 {
        empirical_fields_spec()
    } else if k == 3 {
        theoretical_fields_spec()
    } else if k == 4 {
        case_fields_spec()
    } else if k == 5 {
        systematic_review_fields_spec()
    } else if k == 6 {
        computational_fields_spec()
    } else if k == 7 {
        design_science_fields_spec()
    } else {
        Seq::empty()
    }
}

pub(crate) fn paradigm_index_v(id: &Vec<char>) -> (r: Option<usize>)
    ensures
        match r {
            Some(k) => k < PARADIGM_COUNT && paradigm_index(id@) == k,
            None => paradigm_index(id@) == -1,
        },
{
    let ids = paradigm_ids_v();
    let mut k: usize = 0;
    while k < PARADIGM_COUNT
        invariant
            k <= PARADIGM_COUNT,
            ids@ == paradigm_ids(),
            paradigm_index(id@) == index_from(id@, k as int),
        decreases PARADIGM_COUNT - k,
    {
        if eq_v(&chars_of(ids[k]), id) {
            return Some(k);
        }
        k += 1;
    }
    None
}

fn short_name_v(id: &Vec<char>) -> (r: String)
    ensures
        r@ == short_name(id@),
{
    match paradigm_index_v(id) {
        Some(k) => {
            let names = short_names_v();
            text_of(names[k])
        },
        None => crate::text::string_of(id),
    }
}

fn specific_fields(id: &Vec<char>) -> (r: Vec<FieldDef>)
    ensures
        field_views(r@) == specific_fields_spec(id@),
{
    match paradigm_index_v(id) {
        Some(0) => experimental_fields(),
        Some(1) => rct_fields(),
        Some(2) => empirical_fields(),
        Some(3) => theoretical_fields(),
        Some(4) => case_fields(),
        Some(5) => systematic_review_fields(),
        Some(6) => computational_fields(),
        Some(7) => design_science_fields(),
        _ => {
            let r: Vec<FieldDef> = Vec::new();
            assert(field_views(r@) =~= Seq::<FieldView>::empty());
            r
        },
    }
}

/// Some field is called `n`.
pub open spec fn has_name(fields: Seq<FieldView>, n: Seq<char>) -> bool {
    exists|k: int| 0 <= k < fields.len() && (#[trigger] fields[k]).name == n
}

pub open spec fn with_source(fld: FieldView, src: Seq<char>) -> FieldView {
    FieldView { source: src, ..fld }
}

/// Every template field, with source `src`.
pub open spec fn sourced(tmpl: Seq<FieldView>, src: Seq<char>) -> Seq<FieldView>
    decreases tmpl.len(),
{
    if tmpl.len() == 0 {
        Seq::empty()
    } else {
        sourced(tmpl.drop_last(), src).push(with_source(tmpl.last(), src))
    }
}

/// Append each template field whose name is new, with source `src`.
pub open spec fn add_new(fields: Seq<FieldView>, tmpl: Seq<FieldView>, src: Seq<char>) -> Seq<
    FieldView,
>
    decreases tmpl.len(),
{
    if tmpl.len() == 0 {
        fields
    } else {
        let acc = add_new(fields, tmpl.drop_last(), src);
        if has_name(acc, tmpl.last().name) {
            acc
        } else {
            acc.push(with_source(tmpl.last(), src))
        }
    }
}

pub struct PlanState {
    pub fields: Seq<FieldView>,
    pub notes: Seq<Seq<char>>,
}

/// One field of a secondary paradigm: a clash with an existing name is
/// skipped with a note; `validation_metrics` beside `evaluation_metrics` is
/// kept but labelled as the secondary paradigm's perspective.
pub open spec fn secondary_step(st: PlanState, fld: FieldView, short: Seq<char>) -> PlanState {
    if has_name(st.fields, fld.name) {
        PlanState {
            fields: st.fields,
            notes: st.notes.push(
                "字段「"@ + fld.label + "」同名冲突：采用主范式定义，跳过次范式同名项"@,
            ),
        }
    } else if fld.name == "validation_metrics"@ && has_name(st.fields, "evaluation_metrics"@) {
        PlanState {
            fields: st.fields.push(
                FieldView {
                    label: fld.label + "（次范式视角）"@,
                    source: "次范式视角·"@ + short,
                    ..fld
                },
            ),
            notes: st.notes,
        }
    } else {
        PlanState { fields: st.fields.push(with_source(fld, "次范式·"@ + short)), notes: st.notes }
    }
}

pub open spec fn add_secondary(st: PlanState, tmpl: Seq<FieldView>, short: Seq<char>) -> PlanState
    decreases tmpl.len(),
{
    if tmpl.len() == 0 {
        st
    } else {
        secondary_step(add_secondary(st, tmpl.drop_last(), short), tmpl.last(), short)
    }
}

/// A secondary paradigm is merged at weight 0.15 in a multi-discipline
/// cross, 0.25 in a two-discipline cross, and never otherwise.
pub open spec fn qualifies(cross: Seq<char>, w: int) -> bool {
    if cross == "多学科交叉"@ {
        w >= 180
    } else if cross == "双学科交叉"@ {
        w >= 300
    } else {
        false
    }
}

pub open spec fn sp_weights(v: Seq<SecondaryView>) -> Seq<u32>
    decreases v.len(),
{
    if v.len() == 0 {
        Seq::empty()
    } else {
        sp_weights(v.drop_last()).push(v.last().weight as u32)
    }
}

/// Merge the secondary paradigms in the order of `ranked`.
pub open spec fn add_secondaries(
    st: PlanState,
    ranked: Seq<(u32, usize)>,
    sps: Seq<SecondaryView>,
    cross: Seq<char>,
) -> PlanState
    decreases ranked.len(),
{
    if ranked.len() == 0 {
        st
    } else {
        let acc = add_secondaries(st, ranked.drop_last(), sps, cross);
        let sp = sps[ranked.last().1 as int];
        if qualifies(cross, sp.weight) {
            add_secondary(acc, specific_fields_spec(sp.id), short_name(sp.id))
        } else {
            acc
        }
    }
}

pub open spec fn strategy(cross: Seq<char>) -> Seq<char> {
    if cross == "单学科"@ {
        "通用字段 + 主范式特有字段"@
    } else if cross == "双学科交叉"@ {
        "通用字段 + 主范式特有字段 + 次范式特有字段"@
    } else if cross == "多学科交叉"@ {
        "通用字段 + 各范式特有字段 + 交叉对话字段"@
    } else {
        cross
    }
}

/// The plan that `assemble_field_plan` returns for a recognition.
pub open spec fn field_plan(rec: RecognitionView) -> PlanView {
    let f1 = sourced(common_fields_spec(), "通用"@);
    let f2 = add_new(
        f1,
        specific_fields_spec(rec.paradigm_id),
        "主范式·"@ + short_name(rec.paradigm_id),
    );
    let st = add_secondaries(
        PlanState { fields: f2, notes: Seq::empty() },
        rank_desc(sp_weights(rec.secondary)),
        rec.secondary,
        rec.cross_type,
    );
    let f4 = if rec.cross_type == "多学科交叉"@ {
        add_new(st.fields, cross_dialogue_fields_spec(), "交叉对话"@)
    } else {
        st.fields
    };
    PlanView {
        paradigm_id: rec.paradigm_id,
        paradigm_name: rec.paradigm_name,
        cross_type: rec.cross_type,
        combine_strategy: strategy(rec.cross_type),
        fields: f4,
        count: f4.len() as int,
        notes: st.notes,
    }
}

fn has_name_v(fields: &Vec<FieldDef>, n: &Vec<char>) -> (r: bool)
    ensures
        r == has_name(field_views(fields@), n@),
{
    let mut k: usize = 0;
    while k < fields.len()
        invariant
            k <= fields.len(),
            forall|j: int| 0 <= j < k ==> (#[trigger] field_views(fields@)[j]).name != n@,
        decreases fields.len() - k,
    {
        if eq_v(&chars_of(fields[k].name.as_str()), n) {
            assert(field_views(fields@)[k as int].name == n@);
            return true;
        }
        k += 1;
    }
    false
}

fn copy_field(fld: &FieldDef, label: String, source: String) -> (r: FieldDef)
    ensures
        r@ == (FieldView { label: label@, source: source@, ..fld@ }),
{
    FieldDef {
        name: fld.name.clone(),
        label,
        ftype: fld.ftype.clone(),
        description: fld.description.clone(),
        required: fld.required,
        enum_values: clone_strings(&fld.enum_values),
        source,
    }
}

fn add_new_v(fields: &mut Vec<FieldDef>, tmpl: &Vec<FieldDef>, src: &String)
    ensures
        field_views(final(fields)@) == add_new(field_views(old(fields)@), field_views(tmpl@), src@),
{
    let ghost start = field_views(fields@);
    let mut i: usize = 0;
    while i < tmpl.len()
        invariant
            i <= tmpl.len(),
            field_views(fields@) == add_new(start, field_views(tmpl@.take(i as int)), src@),
        decreases tmpl.len() - i,
    {
        proof {
            let t = field_views(tmpl@.take(i + 1));
            assert(t.drop_last() =~= field_views(tmpl@.take(i as int)));
            assert(t.last() == tmpl@[i as int]@);
        }
        if !has_name_v(fields, &chars_of(tmpl[i].name.as_str())) {
            let ghost before = field_views(fields@);
            let nf = copy_field(&tmpl[i], tmpl[i].label.clone(), src.clone());
            fields.push(nf);
            assert(field_views(fields@) =~= before.push(with_source(tmpl@[i as int]@, src@)));
        }
        i += 1;
    }
    assert(tmpl@.take(tmpl.len() as int) =~= tmpl@);
}

fn add_secondary_v(fields: &mut Vec<FieldDef>, notes: &mut Vec<String>, tmpl: &Vec<FieldDef>, short: &String)
    ensures
        ({
            let st = add_secondary(
                PlanState { fields: field_views(old(fields)@), notes: str_views(old(notes)@) },
                field_views(tmpl@),
                short@,
            );
            &&& field_views(final(fields)@) == st.fields
            &&& str_views(final(notes)@) == st.notes
        }),
{
    let ghost start = PlanState { fields: field_views(fields@), notes: str_views(notes@) };
    let mut i: usize = 0;
    while i < tmpl.len()
        invariant
            i <= tmpl.len(),
            ({
                let st = add_secondary(start, field_views(tmpl@.take(i as int)), short@);
                &&& field_views(fields@) == st.fields
                &&& str_views(notes@) == st.notes
            }),
        decreases tmpl.len() - i,
    {
        proof {
            let t = field_views(tmpl@.take(i + 1));
            assert(t.drop_last() =~= field_views(tmpl@.take(i as int)));
            assert(t.last() == tmpl@[i as int]@);
        }
        let fld = &tmpl[i];
        let name = chars_of(fld.name.as_str());
        let ghost fv = fld@;
        if has_name_v(fields, &name) {
            let ghost before = str_views(notes@);
            let mut note = text_of("字段「");
            note.append(fld.label.as_str());
            note.append("」同名冲突：采用主范式定义，跳过次范式同名项");
            notes.push(note);
            assert(str_views(notes@) =~= before.push(
                "字段「"@ + fv.label + "」同名冲突：采用主范式定义，跳过次范式同名项"@,
            ));
        } else {
            let near = eq_v(&name, &chars_of("validation_metrics")) && has_name_v(
                fields,
                &chars_of("evaluation_metrics"),
            );
            let ghost before = field_views(fields@);
            if near {
                let mut label = fld.label.clone();
                label.append("（次范式视角）");
                let mut source = text_of("次范式视角·");
                source.append(short.as_str());
                fields.push(copy_field(fld, label, source));
                assert(field_views(fields@) =~= before.push(
                    FieldView {
                        label: fv.label + "（次范式视角）"@,
                        source: "次范式视角·"@ + short@,
                        ..fv
                    },
                ));
            } else {
                let mut source = text_of("次范式·");
                source.append(short.as_str());
                fields.push(copy_field(fld, fld.label.clone(), source));
                assert(field_views(fields@) =~= before.push(with_source(fv, "次范式·"@ + short@)));
            }
        }
        i += 1;
    }
    assert(tmpl@.take(tmpl.len() as int) =~= tmpl@);
}

fn is_text(s: &String, lit: &str) -> (r: bool)
    ensures
        r == (s@ == lit@),
{
    eq_v(&chars_of(s.as_str()), &chars_of(lit))
}

/// Assemble the field plan of a recognized paper: common fields, the
/// primary paradigm's fields, the qualifying secondary paradigms' fields
/// (heaviest first) and, for a multi-discipline cross, the cross-dialogue
/// fields; a later field never replaces an earlier one of the same name.
pub fn assemble_field_plan(rec: &ParadigmRecognition) -> (r: FieldPlan)
    ensures
        r@ == field_plan(rec@),
{
    let ghost rv = rec@;
    // common fields
    let common = common_fields();
    let src_common = text_of("通用");
    let mut fields: Vec<FieldDef> = Vec::new();
    let mut i: usize = 0;
    while i < common.len()
        invariant
            i <= common.len(),
            src_common@ == "通用"@,
            field_views(fields@) == sourced(field_views(common@.take(i as int)), "通用"@),
        decreases common.len() - i,
    {
        proof {
            let t = field_views(common@.take(i + 1));
            assert(t.drop_last() =~= field_views(common@.take(i as int)));
            assert(t.last() == common@[i as int]@);
        }
        let ghost before = field_views(fields@);
        fields.push(copy_field(&common[i], common[i].label.clone(), src_common.clone()));
        assert(field_views(fields@) =~= before.push(with_source(common@[i as int]@, "通用"@)));
        i += 1;
    }
    assert(common@.take(common.len() as int) =~= common@);
    // primary paradigm
    let pid = chars_of(rec.paradigm_id.as_str());
    let mut primary_src = text_of("主范式·");
    let sn = short_name_v(&pid);
    primary_src.append(sn.as_str());
    let primary = specific_fields(&pid);
    add_new_v(&mut fields, &primary, &primary_src);
    // secondary paradigms, heaviest first
    let mut notes: Vec<String> = Vec::new();
    let mut weights: Vec<u32> = Vec::new();
    let mut k: usize = 0;
    while k < rec.secondary_paradigms.len()
        invariant
            k <= rec.secondary_paradigms.len(),
            weights@ == sp_weights(secondary_views_of(rec.secondary_paradigms@.take(k as int))),
        decreases rec.secondary_paradigms.len() - k,
    {
        proof {
            let t = secondary_views_of(rec.secondary_paradigms@.take(k + 1));
            assert(t.drop_last() =~= secondary_views_of(rec.secondary_paradigms@.take(k as int)));
        }
        weights.push(rec.secondary_paradigms[k].weight);
        k += 1;
    }
    assert(rec.secondary_paradigms@.take(rec.secondary_paradigms.len() as int)
        =~= rec.secondary_paradigms@);
    let ranked = rank_v(&weights);
    proof {
        lemma_sp_weights_len(rv.secondary);
        lemma_rank_below(weights@);
    }
    let multi = is_text(&rec.cross_type, "多学科交叉");
    let dual = is_text(&rec.cross_type, "双学科交叉");
    let ghost st0 = PlanState { fields: field_views(fields@), notes: str_views(notes@) };
    proof {
        assert(str_views(notes@) =~= Seq::<Seq<char>>::empty());
        assert(field_views(common@) == common_fields_spec());
        assert(st0 == PlanState {
            fields: add_new(
                sourced(common_fields_spec(), "通用"@),
                specific_fields_spec(rv.paradigm_id),
                "主范式·"@ + short_name(rv.paradigm_id),
            ),
            notes: Seq::empty(),
        });
    }
    let mut j: usize = 0;
    while j < ranked.len()
        invariant
            j <= ranked.len(),
            ranked@ == rank_desc(sp_weights(rv.secondary)),
            indices_below(ranked@, rec.secondary_paradigms.len() as int),
            rv == rec@,
            multi == (rec.cross_type@ == "多学科交叉"@),
            dual == (rec.cross_type@ == "双学科交叉"@),
            ({
                let st = add_secondaries(st0, ranked@.take(j as int), rv.secondary, rv.cross_type);
                &&& field_views(fields@) == st.fields
                &&& str_views(notes@) == st.notes
            }),
        decreases ranked.len() - j,
    {
        proof {
            let t = ranked@.take(j + 1);
            assert(t.drop_last() =~= ranked@.take(j as int));
            assert(t.last() == ranked@[j as int]);
        }
        let idx = ranked[j].1;
        assert(ranked@[j as int].1 < rec.secondary_paradigms.len());
        let sp = &rec.secondary_paradigms[idx];
        assert(rv.secondary[idx as int] == sp@);
        let ok = if multi {
            sp.weight >= 180
        } else if dual {
            sp.weight >= 300
        } else {
            false
        };
        if ok {
            let sid = chars_of(sp.paradigm_id.as_str());
            let tmpl = specific_fields(&sid);
            let short = short_name_v(&sid);
            add_secondary_v(&mut fields, &mut notes, &tmpl, &short);
        }
        j += 1;
    }
    assert(ranked@.take(ranked.len() as int) =~= ranked@);
    // cross dialogue
    if multi {
        let cross = cross_dialogue_fields();
        add_new_v(&mut fields, &cross, &text_of("交叉对话"));
    }
    let strategy_text = if is_text(&rec.cross_type, "单学科") {
        text_of("通用字段 + 主范式特有字段")
    } else if dual {
        text_of("通用字段 + 主范式特有字段 + 次范式特有字段")
    } else if multi {
        text_of("通用字段 + 各范式特有字段 + 交叉对话字段")
    } else {
        rec.cross_type.clone()
    };
    let count = fields.len();
    proof {
        let st = add_secondaries(st0, ranked@, rv.secondary, rv.cross_type);
        assert(str_views(notes@) == field_plan(rv).notes);
        assert(field_views(fields@) == field_plan(rv).fields);
        assert(strategy_text@ == field_plan(rv).combine_strategy);
    }
    FieldPlan {
        paradigm_id: rec.paradigm_id.clone(),
        paradigm_name: rec.paradigm_name.clone(),
        cross_type: rec.cross_type.clone(),
        combine_strategy: strategy_text,
        fields,
        count,
        notes,
    }
}

proof fn lemma_sp_weights_len(v: Seq<SecondaryView>)
    ensures
        sp_weights(v).len() == v.len(),
    decreases v.len(),
{
    if v.len() > 0 {
        lemma_sp_weights_len(v.drop_last());
    }
}

// ---------------------------------------------------------------------------
// Laws
// ---------------------------------------------------------------------------

pub open spec fn distinct_names(fields: Seq<FieldView>) -> bool {
    forall|i: int, j: int| 0 <= i < j < fields.len() ==> (#[trigger] fields[i]).name != (#[trigger] fields[j]).name
}

/// `p` is a prefix of `s`.
pub open spec fn prefix_of(p: Seq<FieldView>, s: Seq<FieldView>) -> bool {
    p.len() <= s.len() && s.take(p.len() as int) == p
}

proof fn lemma_push_new(fields: Seq<FieldView>, x: FieldView)
    requires
        distinct_names(fields),
        !has_name(fields, x.name),
    ensures
        distinct_names(fields.push(x)),
        prefix_of(fields, fields.push(x)),
{
    let r = fields.push(x);
    assert forall|i: int, j: int| 0 <= i < j < r.len() implies (#[trigger] r[i]).name != (#[trigger] r[j]).name by {
        if j == fields.len() {
            assert(r[i] == fields[i]);
        } else {
            assert(r[i] == fields[i]);
            assert(r[j] == fields[j]);
        }
    }
    assert(r.take(fields.len() as int) =~= fields);
}

proof fn lemma_prefix_trans(a: Seq<FieldView>, b: Seq<FieldView>, c: Seq<FieldView>)
    requires
        prefix_of(a, b),
        prefix_of(b, c),
    ensures
        prefix_of(a, c),
{
    assert(c.take(a.len() as int) =~= b.take(a.len() as int));
}

proof fn lemma_add_new(fields: Seq<FieldView>, tmpl: Seq<FieldView>, src: Seq<char>)
    requires
        distinct_names(fields),
    ensures
        distinct_names(add_new(fields, tmpl, src)),
        prefix_of(fields, add_new(fields, tmpl, src)),
    decreases tmpl.len(),
{
    if tmpl.len() == 0 {
        assert(fields.take(fields.len() as int) =~= fields);
    } else {
        lemma_add_new(fields, tmpl.drop_last(), src);
        let acc = add_new(fields, tmpl.drop_last(), src);
        if !has_name(acc, tmpl.last().name) {
            lemma_push_new(acc, with_source(tmpl.last(), src));
            lemma_prefix_trans(fields, acc, acc.push(with_source(tmpl.last(), src)));
        }
    }
}

proof fn lemma_add_secondary(st: PlanState, tmpl: Seq<FieldView>, short: Seq<char>)
    requires
        distinct_names(st.fields),
    ensures
        distinct_names(add_secondary(st, tmpl, short).fields),
        prefix_of(st.fields, add_secondary(st, tmpl, short).fields),
    decreases tmpl.len(),
{
    if tmpl.len() == 0 {
        assert(st.fields.take(st.fields.len() as int) =~= st.fields);
    } else {
        lemma_add_secondary(st, tmpl.drop_last(), short);
        let acc = add_secondary(st, tmpl.drop_last(), short);
        let fld = tmpl.last();
        if !has_name(acc.fields, fld.name) {
            let x = if fld.name == "validation_metrics"@ && has_name(acc.fields, "evaluation_metrics"@) {
                FieldView { label: fld.label + "（次范式视角）"@, source: "次范式视角·"@ + short, ..fld }
            } else {
                with_source(fld, "次范式·"@ + short)
            };
            lemma_push_new(acc.fields, x);
            lemma_prefix_trans(st.fields, acc.fields, acc.fields.push(x));
        }
    }
}

proof fn lemma_add_secondaries(
    st: PlanState,
    ranked: Seq<(u32, usize)>,
    sps: Seq<SecondaryView>,
    cross: Seq<char>,
)
    requires
        distinct_names(st.fields),
    ensures
        distinct_names(add_secondaries(st, ranked, sps, cross).fields),
        prefix_of(st.fields, add_secondaries(st, ranked, sps, cross).fields),
        cross == "单学科"@ ==> add_secondaries(st, ranked, sps, cross) == st,
    decreases ranked.len(),
{
    if ranked.len() == 0 {
        assert(st.fields.take(st.fields.len() as int) =~= st.fields);
    } else {
        lemma_add_secondaries(st, ranked.drop_last(), sps, cross);
        let acc = add_secondaries(st, ranked.drop_last(), sps, cross);
        let sp = sps[ranked.last().1 as int];
        if qualifies(cross, sp.weight) {
            lemma_add_secondary(acc, specific_fields_spec(sp.id), short_name(sp.id));
            lemma_prefix_trans(
                st.fields,
                acc.fields,
                add_secondary(acc, specific_fields_spec(sp.id), short_name(sp.id)).fields,
            );
            if cross == "单学科"@ {
                reveal_strlit("单学科");
                reveal_strlit("多学科交叉");
                reveal_strlit("双学科交叉");
                assert("单学科"@.len() == 3);
                assert("多学科交叉"@.len() == 5);
                assert("双学科交叉"@.len() == 5);
            }
        }
    }
}

proof fn lemma_sourced(tmpl: Seq<FieldView>, src: Seq<char>)
    ensures
        sourced(tmpl, src).len() == tmpl.len(),
        forall|k: int| 0 <= k < tmpl.len() ==> (#[trigger] sourced(tmpl, src)[k]).name == tmpl[k].name,
    decreases tmpl.len(),
{
    if tmpl.len() > 0 {
        lemma_sourced(tmpl.drop_last(), src);
        assert forall|k: int| 0 <= k < tmpl.len() implies (#[trigger] sourced(tmpl, src)[k]).name
            == tmpl[k].name by {
            if k < tmpl.len() - 1 {
                assert(sourced(tmpl, src)[k] == sourced(tmpl.drop_last(), src)[k]);
            }
        }
    }
}

proof fn lemma_common_distinct()
    ensures
        distinct_names(sourced(common_fields_spec(), "通用"@)),
{
    reveal_strlit("title");
    reveal_strlit("authors");
    reveal_strlit("year");
    reveal_strlit("source");
    reveal_strlit("doi");
    reveal_strlit("abstract");
    reveal_strlit("keywords");
    reveal_strlit("research_question");
    reveal_strlit("main_finding");
    reveal_strlit("knowledge_contribution");
    let c = common_fields_spec();
    lemma_sourced(c, "通用"@);
    let s = sourced(c, "通用"@);
    assert forall|i: int, j: int| 0 <= i < j < s.len() implies (#[trigger] s[i]).name != (#[trigger] s[j]).name by {
        assert(s[i].name == c[i].name);
        assert(s[j].name == c[j].name);
        assert(c[i].name.len() != c[j].name.len() || c[i].name[0] != c[j].name[0] || c[i].name[1]
            != c[j].name[1]);
    }
}

/// Every field plan holds each field name once, begins with the common
/// fields, counts its fields, and for a single-discipline paper consists of
/// the common fields and the primary paradigm's fields alone, with no notes.
pub proof fn law_field_plan_shape(rec: RecognitionView)
    ensures
        field_plan(rec).count == field_plan(rec).fields.len(),
        distinct_names(field_plan(rec).fields),
        prefix_of(sourced(common_fields_spec(), "通用"@), field_plan(rec).fields),
        rec.cross_type == "单学科"@ ==> field_plan(rec).fields == add_new(
            sourced(common_fields_spec(), "通用"@),
            specific_fields_spec(rec.paradigm_id),
            "主范式·"@ + short_name(rec.paradigm_id),
        ) && field_plan(rec).notes.len() == 0,
{
    let f1 = sourced(common_fields_spec(), "通用"@);
    lemma_common_distinct();
    let f2 = add_new(f1, specific_fields_spec(rec.paradigm_id), "主范式·"@ + short_name(rec.paradigm_id));
    lemma_add_new(f1, specific_fields_spec(rec.paradigm_id), "主范式·"@ + short_name(rec.paradigm_id));
    let st0 = PlanState { fields: f2, notes: Seq::empty() };
    let ranked = rank_desc(sp_weights(rec.secondary));
    lemma_add_secondaries(st0, ranked, rec.secondary, rec.cross_type);
    let st = add_secondaries(st0, ranked, rec.secondary, rec.cross_type);
    lemma_prefix_trans(f1, f2, st.fields);
    if rec.cross_type == "多学科交叉"@ {
        lemma_add_new(st.fields, cross_dialogue_fields_spec(), "交叉对话"@);
        lemma_prefix_trans(f1, st.fields, add_new(st.fields, cross_dialogue_fields_spec(), "交叉对话"@));
    }
    if rec.cross_type == "单学科"@ {
        reveal_strlit("单学科");
        reveal_strlit("多学科交叉");
        assert("单学科"@.len() == 3);
        assert("多学科交叉"@.len() == 5);
    }
}

/// Merging a secondary paradigm's fields: a field whose name is already in
/// the plan is skipped and a clash note naming it is added (the earlier
/// definition wins); the fields and notes already there stay, in order;
/// and every template field gives exactly one new field or one new note.
pub proof fn law_secondary_merge(st: PlanState, tmpl: Seq<FieldView>, short: Seq<char>)
    ensures
        forall|k: int|
            0 <= k < tmpl.len() && has_name(#[trigger] add_secondary(st, tmpl.take(k), short).fields, tmpl[k].name)
                ==> add_secondary(st, tmpl.take(k + 1), short) == (PlanState {
                fields: add_secondary(st, tmpl.take(k), short).fields,
                notes: add_secondary(st, tmpl.take(k), short).notes.push(
                    "字段「"@ + tmpl[k].label + "」同名冲突：采用主范式定义，跳过次范式同名项"@,
                ),
            }),
        prefix_of(st.fields, add_secondary(st, tmpl, short).fields),
        st.notes.len() <= add_secondary(st, tmpl, short).notes.len(),
        add_secondary(st, tmpl, short).notes.take(st.notes.len() as int) == st.notes,
        add_secondary(st, tmpl, short).fields.len() + add_secondary(st, tmpl, short).notes.len()
            == st.fields.len() + st.notes.len() + tmpl.len(),
    decreases tmpl.len(),
{
    if tmpl.len() > 0 {
        let init = tmpl.drop_last();
        law_secondary_merge(st, init, short);
        assert(tmpl.take(tmpl.len() as int) =~= tmpl);
        assert forall|k: int|
            0 <= k < tmpl.len() && has_name(#[trigger] add_secondary(st, tmpl.take(k), short).fields, tmpl[k].name)
                implies add_secondary(st, tmpl.take(k + 1), short) == (PlanState {
                fields: add_secondary(st, tmpl.take(k), short).fields,
                notes: add_secondary(st, tmpl.take(k), short).notes.push(
                    "字段「"@ + tmpl[k].label + "」同名冲突：采用主范式定义，跳过次范式同名项"@,
                ),
            }) by {
            let t = tmpl.take(k + 1);
            assert(t.drop_last() =~= tmpl.take(k));
            assert(t.last() == tmpl[k]);
        }
        let a = add_secondary(st, init, short);
        let r = add_secondary(st, tmpl, short);
        assert(tmpl.drop_last() =~= init);
        assert(r.fields.take(st.fields.len() as int) =~= a.fields.take(st.fields.len() as int));
        assert(r.notes.take(st.notes.len() as int) =~= a.notes.take(st.notes.len() as int));
    } else {
        assert(st.fields.take(st.fields.len() as int) =~= st.fields);
        assert(st.notes.take(st.notes.len() as int) =~= st.notes);
    }
}

proof fn lemma_has_name_prefix(a: Seq<FieldView>, b: Seq<FieldView>, n: Seq<char>)
    requires
        has_name(a, n),
        prefix_of(a, b),
    ensures
        has_name(b, n),
{
    let k = choose|k: int| 0 <= k < a.len() && (#[trigger] a[k]).name == n;
    assert(b.take(a.len() as int)[k] == b[k]);
    assert(b[k].name == n);
}

proof fn lemma_add_new_prefix(fields: Seq<FieldView>, tmpl: Seq<FieldView>, src: Seq<char>)
    ensures
        prefix_of(fields, add_new(fields, tmpl, src)),
    decreases tmpl.len(),
{
    if tmpl.len() == 0 {
        assert(fields.take(fields.len() as int) =~= fields);
    } else {
        lemma_add_new_prefix(fields, tmpl.drop_last(), src);
        let acc = add_new(fields, tmpl.drop_last(), src);
        if !has_name(acc, tmpl.last().name) {
            assert(acc.push(with_source(tmpl.last(), src)).take(acc.len() as int) =~= acc);
            lemma_prefix_trans(fields, acc, acc.push(with_source(tmpl.last(), src)));
        }
    }
}

/// After merging a secondary paradigm, each of its field names is in the
/// plan, and the fields already there stay first.
proof fn lemma_add_secondary_names(st: PlanState, tmpl: Seq<FieldView>, short: Seq<char>)
    ensures
        prefix_of(st.fields, add_secondary(st, tmpl, short).fields),
        forall|j: int| 0 <= j < tmpl.len() ==> has_name(add_secondary(st, tmpl, short).fields, #[trigger] tmpl[j].name),
    decreases tmpl.len(),
{
    law_secondary_merge(st, tmpl, short);
    if tmpl.len() > 0 {
        let init = tmpl.drop_last();
        lemma_add_secondary_names(st, init, short);
        let acc = add_secondary(st, init, short);
        let fld = tmpl.last();
        let r = add_secondary(st, tmpl, short);
        assert(r == secondary_step(acc, fld, short));
        assert(prefix_of(acc.fields, r.fields)) by {
            assert(r.fields.take(acc.fields.len() as int) =~= acc.fields);
        }
        assert forall|j: int| 0 <= j < tmpl.len() implies has_name(r.fields, #[trigger] tmpl[j].name) by {
            if j < init.len() {
                assert(init[j] == tmpl[j]);
                lemma_has_name_prefix(acc.fields, r.fields, tmpl[j].name);
            } else if has_name(acc.fields, fld.name) {
                lemma_has_name_prefix(acc.fields, r.fields, fld.name);
            } else {
                assert(r.fields[acc.fields.len() as int].name == fld.name);
            }
        }
    }
}

proof fn lemma_add_secondaries_names(
    st: PlanState,
    ranked: Seq<(u32, usize)>,
    sps: Seq<SecondaryView>,
    cross: Seq<char>,
)
    ensures
        prefix_of(st.fields, add_secondaries(st, ranked, sps, cross).fields),
        forall|j: int, f: int|
            0 <= j < ranked.len() && qualifies(cross, sps[ranked[j].1 as int].weight) && 0 <= f
                < specific_fields_spec(sps[ranked[j].1 as int].id).len() ==> has_name(
                add_secondaries(st, ranked, sps, cross).fields,
                (#[trigger] specific_fields_spec(sps[ranked[j].1 as int].id)[f]).name,
            ),
    decreases ranked.len(),
{
    if ranked.len() == 0 {
        assert(st.fields.take(st.fields.len() as int) =~= st.fields);
    } else {
        let init = ranked.drop_last();
        lemma_add_secondaries_names(st, init, sps, cross);
        let acc = add_secondaries(st, init, sps, cross);
        let r = add_secondaries(st, ranked, sps, cross);
        let sp = sps[ranked.last().1 as int];
        if qualifies(cross, sp.weight) {
            lemma_add_secondary_names(acc, specific_fields_spec(sp.id), short_name(sp.id));
        } else {
            assert(acc.fields.take(acc.fields.len() as int) =~= acc.fields);
        }
        assert(prefix_of(acc.fields, r.fields));
        lemma_prefix_trans(st.fields, acc.fields, r.fields);
        assert forall|j: int, f: int|
            0 <= j < ranked.len() && qualifies(cross, sps[ranked[j].1 as int].weight) && 0 <= f
                < specific_fields_spec(sps[ranked[j].1 as int].id).len() implies has_name(
                r.fields,
                (#[trigger] specific_fields_spec(sps[ranked[j].1 as int].id)[f]).name,
            ) by {
            if j < init.len() {
                assert(init[j] == ranked[j]);
                assert(has_name(acc.fields, specific_fields_spec(sps[init[j].1 as int].id)[f].name));
                lemma_has_name_prefix(acc.fields, r.fields, specific_fields_spec(sps[ranked[j].1 as int].id)[f].name);
            } else {
                assert(ranked[j] == ranked.last());
                let tm = specific_fields_spec(sp.id);
                assert(has_name(r.fields, tm[f].name));
            }
        }
    }
}

proof fn lemma_sp_weights_at(v: Seq<SecondaryView>)
    ensures
        sp_weights(v).len() == v.len(),
        forall|k: int| 0 <= k < v.len() ==> #[trigger] sp_weights(v)[k] == v[k].weight as u32,
    decreases v.len(),
{
    if v.len() > 0 {
        lemma_sp_weights_at(v.drop_last());
        assert forall|k: int| 0 <= k < v.len() implies #[trigger] sp_weights(v)[k] == v[k].weight as u32 by {
            if k < v.len() - 1 {
                assert(sp_weights(v)[k] == sp_weights(v.drop_last())[k]);
            }
        }
    }
}

/// Law: every secondary paradigm that a cross merges brings all its fields
/// into the plan (each under its name, or as a clash with a field of the
/// same name already there): in a multi-discipline cross every secondary
/// paradigm of weight 0.15 or more, in a two-discipline cross every one of
/// weight 0.25 or more.
pub proof fn law_secondaries_merged(rec: RecognitionView)
    requires
        rec.secondary.len() <= usize::MAX,
        forall|k: int| 0 <= k < rec.secondary.len() ==> 0 <= #[trigger] rec.secondary[k].weight <= u32::MAX,
    ensures
        rec.cross_type == "多学科交叉"@ ==> forall|k: int, f: int|
            0 <= k < rec.secondary.len() && rec.secondary[k].weight >= 180 && 0 <= f
                < specific_fields_spec(rec.secondary[k].id).len() ==> has_name(
                field_plan(rec).fields,
                (#[trigger] specific_fields_spec(rec.secondary[k].id)[f]).name,
            ),
        rec.cross_type == "双学科交叉"@ ==> forall|k: int, f: int|
            0 <= k < rec.secondary.len() && rec.secondary[k].weight >= 300 && 0 <= f
                < specific_fields_spec(rec.secondary[k].id).len() ==> has_name(
                field_plan(rec).fields,
                (#[trigger] specific_fields_spec(rec.secondary[k].id)[f]).name,
            ),
{
    let sps = rec.secondary;
    let scores = sp_weights(sps);
    lemma_sp_weights_at(sps);
    crate::rank::lemma_rank_contents(scores);
    let ranked = rank_desc(scores);
    let f1 = sourced(common_fields_spec(), "通用"@);
    let f2 = add_new(f1, specific_fields_spec(rec.paradigm_id), "主范式·"@ + short_name(rec.paradigm_id));
    let st0 = PlanState { fields: f2, notes: Seq::empty() };
    lemma_add_secondaries_names(st0, ranked, sps, rec.cross_type);
    let st = add_secondaries(st0, ranked, sps, rec.cross_type);
    let f4 = field_plan(rec).fields;
    if rec.cross_type == "多学科交叉"@ {
        lemma_add_new_prefix(st.fields, cross_dialogue_fields_spec(), "交叉对话"@);
    } else {
        assert(f4.take(st.fields.len() as int) =~= st.fields);
    }
    assert(prefix_of(st.fields, f4));
    assert forall|k: int, f: int|
        0 <= k < sps.len() && (rec.cross_type == "多学科交叉"@ && sps[k].weight >= 180
            || rec.cross_type == "双学科交叉"@ && sps[k].weight >= 300) && 0 <= f
            < specific_fields_spec(sps[k].id).len() implies has_name(
        f4,
        (#[trigger] specific_fields_spec(sps[k].id)[f]).name,
    ) by {
        assert(ranked.contains((scores[k], k as usize)));
        let j = choose|j: int| 0 <= j < ranked.len() && ranked[j] == (scores[k], k as usize);
        assert(ranked[j].1 as int == k);
        assert(qualifies(rec.cross_type, sps[k].weight));
        assert(has_name(st.fields, specific_fields_spec(sps[ranked[j].1 as int].id)[f].name));
        lemma_has_name_prefix(st.fields, f4, specific_fields_spec(sps[k].id)[f].name);
    }
}

} // verus!
