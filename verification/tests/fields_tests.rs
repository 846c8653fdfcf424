use litdesk::fields::assemble_field_plan;
use litdesk::paradigm::{
    DomesticDiscipline, InternationalDiscipline, ParadigmRecognition, SecondaryParadigm, SCALE,
};

/// A ratio in `[0, 1]` as the library's fixed-point value.
fn ratio(x: f64) -> u32 {
    (x * SCALE as f64).round() as u32
}

fn rec_single() -> ParadigmRecognition {
    ParadigmRecognition {
        paradigm_id: "paradigm-experimental-baseline".into(),
        paradigm_name: "实验对比型范式".into(),
        confidence: ratio(0.85),
        identification_basis: vec![],
        cross_type: "单学科".into(),
        secondary_paradigms: vec![],
        human_review_required: false,
        fallback_to_common: false,
        domestic: DomesticDiscipline {
            category: "08 工学".into(),
            code: "0812".into(),
            discipline: "计算机科学与技术".into(),
            confidence: ratio(1.0),
            basis: vec![],
            secondary: vec![],
        },
        international: InternationalDiscipline {
            supergroup: "Computer Science".into(),
            code: "1700".into(),
            discipline: "Computer Science".into(),
            confidence: ratio(1.0),
            basis: vec![],
            secondary: vec![],
        },
        directions: vec![],
    }
}

fn rec_cross() -> ParadigmRecognition {
    let mut r = rec_single();
    r.cross_type = "双学科交叉".into();
    r.secondary_paradigms = vec![SecondaryParadigm {
        paradigm_id: "paradigm-design-science".into(),
        paradigm_name: "设计与构建型范式".into(),
        weight: ratio(0.3),
        basis: vec![],
    }];
    r
}

fn rec_multi() -> ParadigmRecognition {
    let mut r = rec_cross();
    r.cross_type = "多学科交叉".into();
    r.secondary_paradigms.push(SecondaryParadigm {
        paradigm_id: "paradigm-computational-sim".into(),
        paradigm_name: "计算模拟型范式".into(),
        weight: ratio(0.2),
        basis: vec![],
    });
    r
}

#[test]
fn single_uses_common_plus_primary() {
    let plan = assemble_field_plan(&rec_single());
    assert_eq!(plan.count, 10 + 9);
    assert!(plan.fields.iter().all(|x| x.source != "交叉对话"));
    assert!(plan.fields.iter().any(|x| x.name == "ablation_study"));
}

#[test]
fn cross_unions_secondary_specific() {
    let plan = assemble_field_plan(&rec_cross());
    assert_eq!(plan.count, 10 + 9 + 8);
    assert!(plan.fields.iter().any(|x| x.name == "artifact_description"));
}

#[test]
fn multi_appends_cross_dialogue() {
    let plan = assemble_field_plan(&rec_multi());
    assert!(plan.fields.iter().any(|x| x.name == "cross_points"));
    assert!(plan.fields.iter().any(|x| x.name == "borrowed_methods"));
}

#[test]
fn near_field_marked_secondary_perspective() {
    let mut r = rec_single();
    r.cross_type = "双学科交叉".into();
    r.secondary_paradigms = vec![SecondaryParadigm {
        paradigm_id: "paradigm-computational-sim".into(),
        paradigm_name: "计算模拟型范式".into(),
        weight: ratio(0.3),
        basis: vec![],
    }];
    let plan = assemble_field_plan(&r);
    let vm = plan
        .fields
        .iter()
        .find(|x| x.name == "validation_metrics")
        .expect("validation_metrics 应并入");
    assert!(vm.label.contains("次范式视角"));
    assert!(vm.source.contains("次范式视角"));
}

#[test]
fn same_name_primary_wins() {
    let plan = assemble_field_plan(&rec_cross());
    let counts: std::collections::HashMap<&str, usize> =
        plan.fields.iter().map(|x| (x.name.as_str(), 1)).collect();
    assert_eq!(plan.fields.len(), counts.len());
}

#[test]
fn plan_sources_and_strategy() {
    let plan = assemble_field_plan(&rec_multi());
    assert_eq!(plan.combine_strategy, "通用字段 + 各范式特有字段 + 交叉对话字段");
    assert_eq!(plan.fields[0].name, "title");
    assert_eq!(plan.fields[0].source, "通用");
    assert_eq!(plan.fields[10].source, "主范式·实验对比型");
    let art = plan.fields.iter().find(|x| x.name == "artifact_description").unwrap();
    assert_eq!(art.source, "次范式·设计与构建型");
    let cp = plan.fields.iter().find(|x| x.name == "cross_points").unwrap();
    assert_eq!(cp.source, "交叉对话");
    assert_eq!(plan.count, plan.fields.len());
}

#[test]
fn light_secondary_is_not_merged_in_two_discipline_cross() {
    let mut r = rec_cross();
    r.secondary_paradigms[0].weight = ratio(0.2);
    let plan = assemble_field_plan(&r);
    assert_eq!(plan.count, 19);
}

#[test]
fn clash_with_primary_is_noted() {
    let mut r = rec_single();
    r.cross_type = "双学科交叉".into();
    r.secondary_paradigms = vec![SecondaryParadigm {
        paradigm_id: "paradigm-experimental-baseline".into(),
        paradigm_name: "实验对比型范式".into(),
        weight: ratio(0.5),
        basis: vec![],
    }];
    let plan = assemble_field_plan(&r);
    assert_eq!(plan.count, 19);
    assert_eq!(plan.notes.len(), 9);
    assert_eq!(plan.notes[0], "字段「数据集」同名冲突：采用主范式定义，跳过次范式同名项");
}

#[test]
fn unknown_paradigm_keeps_common_fields() {
    let mut r = rec_single();
    r.paradigm_id = "paradigm-unknown".into();
    let plan = assemble_field_plan(&r);
    assert_eq!(plan.count, 10);
    assert_eq!(plan.paradigm_id, "paradigm-unknown");
}
