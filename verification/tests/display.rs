use std::sync::Arc;

use fdapquery::display::{
    display_orderings, DefaultDisplay, DisplayAs, DisplayFormatType, ProjectSchemaDisplay,
    VerboseDisplay,
};
use fdapquery::extension_exec::{ExtensionExec, Labels};
use fdapquery::limit_exec::GlobalLimitExec;
use fdapquery::metrics::cells::{Count, MetricCategory, MetricType};
use fdapquery::metrics::metrics_set::{Metric, MetricsSet};
use fdapquery::metrics::value::{MetricValue, NoCustomMetric};
use fdapquery::plan::ExecutionPlan;
use fdapquery::plan_display::{displayable, DisplayableExecutionPlan, PlanType};
use fdapquery::plan_properties::PlanProperties;
use fdapquery::schema::{DataType, Field, Schema};

const LT: &str = "\u{250C}";
const RT: &str = "\u{2510}";
const LD: &str = "\u{2514}";
const RD: &str = "\u{2518}";
const VERT: &str = "\u{2502}";
const HORIZ: &str = "\u{2500}";
const TMID: &str = "\u{252C}";
const DMID: &str = "\u{2534}";
const LMID: &str = "\u{251C}";

const NRW: usize = 29;
const HALF_MINUS_ONE: usize = NRW / 2 - 1;

fn center(text: &str, max_render_width: usize) -> String {
    let n = text.chars().count();
    if n > max_render_width {
        let truncated = &text[..max_render_width - 3];
        format!("{truncated}...")
    } else {
        let total = max_render_width - n;
        let half = total / 2;
        let extra_left = total % 2;
        format!("{}{}{}", " ".repeat(half + extra_left), text, " ".repeat(half))
    }
}

fn top_border(parent_above: bool) -> String {
    let mid = if parent_above { DMID } else { HORIZ };
    format!("{LT}{}{mid}{}{RT}", HORIZ.repeat(HALF_MINUS_ONE), HORIZ.repeat(HALF_MINUS_ONE))
}

fn bottom_border(child_below: bool) -> String {
    let mid = if child_below { TMID } else { HORIZ };
    format!("{LD}{}{mid}{}{RD}", HORIZ.repeat(HALF_MINUS_ONE), HORIZ.repeat(HALF_MINUS_ONE))
}

fn body_line(content: &str, left_tee: bool) -> String {
    let right = if left_tee { LMID } else { VERT };
    format!("{VERT}{}{right}", center(content, NRW - 2))
}

fn employee_schema() -> Schema {
    Schema::new(vec![
        Field::new("id", DataType::Int64, true),
        Field::new("state", DataType::Utf8, true),
    ])
}

fn employee_source() -> Arc<ExecutionPlan> {
    Arc::new(ExecutionPlan::Extension(ExtensionExec::leaf(
        "TestSourceExec",
        "TestSourceExec: batches=1",
        employee_schema(),
    )))
}

fn operator(name: &str, children: Vec<Arc<ExecutionPlan>>) -> ExecutionPlan {
    ExecutionPlan::Extension(ExtensionExec {
        name: name.to_string(),
        labels: Labels {
            default: name.to_string(),
            verbose: name.to_string(),
            tree: name.to_string(),
        },
        schema: employee_schema(),
        properties: PlanProperties::single_partition_unknown(),
        children,
        metrics: None,
    })
}

#[test]
fn tree_render_byte_equivalent_to_datafusion_single_node() {
    let plan = employee_source();
    let rendered = displayable(&plan).tree_render();

    assert!(!rendered.contains('+'));
    for glyph in [LT, RT, LD, RD, VERT, HORIZ] {
        assert!(rendered.contains(glyph), "missing glyph {glyph:?} in:\n{rendered}");
    }

    let sep = "-".repeat(NRW - 9);
    let expected = format!(
        "{top}\n{l0}\n{l1}\n{l2}\n{l3}\n{bot}\n",
        top = top_border(false),
        l0 = body_line("TestSourceExec", false),
        l1 = body_line(&sep, false),
        l2 = body_line("TestSourceExec: batches:", false),
        l3 = body_line("1", false),
        bot = bottom_border(false),
    );
    assert_eq!(
        rendered, expected,
        "single-node byte snapshot drift.\nactual:\n{rendered}\nexpected:\n{expected}"
    );
}

#[test]
fn tree_render_byte_equivalent_to_datafusion_two_level_one_child() {
    let limit = ExecutionPlan::GlobalLimit(GlobalLimitExec::new(employee_source(), 0, Some(2)));
    let rendered = displayable(&limit).tree_render();

    assert!(rendered.starts_with(&top_border(false)));
    assert!(rendered.contains(&body_line("GlobalLimitExec", false)));
    assert!(rendered.contains(&bottom_border(true)), "expected parent bottom-border `└…┬…┘`");
    assert!(rendered.contains(&top_border(true)), "expected child top-border `┌…┴…┐`");
    assert!(rendered.contains(&bottom_border(false)));
    assert!(rendered.contains(&body_line("TestSourceExec", false)));
    assert!(
        !rendered.contains(LMID),
        "single-child layouts must not emit `├` glyphs.  Got:\n{rendered}"
    );
}

#[test]
fn tree_render_byte_equivalent_to_datafusion_two_level_two_children() {
    let plan = operator("PairExec", vec![employee_source(), employee_source()]);
    let rendered = displayable(&plan).tree_render();

    assert!(
        rendered.contains(LMID),
        "two-child layout must emit `├` at the halfway-point row.  Got:\n{rendered}"
    );
    assert!(
        rendered.contains(TMID),
        "two-child layout must contain `┬` joining parent to children.  Got:\n{rendered}"
    );
    assert!(
        rendered.contains(&top_border(true)),
        "child top borders must use `┴` to join parent.  Got:\n{rendered}"
    );
    assert!(
        rendered.contains(&bottom_border(true)),
        "parent bottom border must use `┬` (child below).  Got:\n{rendered}"
    );
    assert!(
        rendered.contains(&bottom_border(false)),
        "leaf bottom borders must use plain `─`.  Got:\n{rendered}"
    );
}

#[test]
fn tree_render_byte_equivalent_to_datafusion_three_level() {
    let mid = ExecutionPlan::GlobalLimit(GlobalLimitExec::new(employee_source(), 0, Some(5)));
    let top = ExecutionPlan::GlobalLimit(GlobalLimitExec::new(Arc::new(mid), 0, Some(2)));
    let rendered = displayable(&top).tree_render();

    assert!(rendered.starts_with(&top_border(false)));
    assert!(
        rendered.contains(&top_border(true)),
        "middle level should join parent above with `┴`.  Got:\n{rendered}"
    );
    assert!(
        rendered.contains(&bottom_border(true)),
        "middle level should join child below with `┬`.  Got:\n{rendered}"
    );
    assert!(
        rendered.contains(&bottom_border(false)),
        "leaf bottom border should be plain `─`.  Got:\n{rendered}"
    );
    assert!(rendered.contains(&body_line("GlobalLimitExec", false)));
    assert!(rendered.contains(&body_line("TestSourceExec", false)));
}

#[test]
fn a_drawn_pair_of_children() {
    let plan = operator(
        "PairExec",
        vec![Arc::new(operator("A", vec![])), Arc::new(operator("B", vec![]))],
    );
    let rendered = displayable(&plan).tree_render();
    let sep = "-".repeat(NRW - 9);
    let branch = format!("{}{RT}", HORIZ.repeat(NRW / 2));
    let stem = format!("{}{VERT}", " ".repeat(NRW / 2));
    let expected = [
        top_border(false),
        body_line("PairExec", false),
        format!("{}{branch}", body_line(&sep, true)),
        format!("{}{stem}", body_line("PairExec", false)),
        format!("{}{stem}", bottom_border(true)),
        format!("{}{}", top_border(true), top_border(true)),
        format!("{}{}", body_line("A", false), body_line("B", false)),
        format!("{}{}", body_line(&sep, false), body_line(&sep, false)),
        format!("{}{}", body_line("A", false), body_line("B", false)),
        format!("{}{}", bottom_border(false), bottom_border(false)),
    ]
    .iter()
    .map(|line| format!("{line}\n"))
    .collect::<Vec<String>>()
    .concat();
    assert_eq!(rendered, expected);
}

#[test]
fn a_tree_wider_than_allowed_is_cut() {
    let plan = operator("PairExec", vec![employee_source(), employee_source()]);
    let narrow = displayable(&plan).set_tree_maximum_render_width(NRW).tree_render();
    assert!(narrow.lines().all(|line| line.chars().count() <= NRW));
    assert!(!narrow.is_empty());
}

#[test]
fn lines_are_indented_by_depth() {
    let plan = operator(
        "Root",
        vec![
            Arc::new(operator("Left", vec![Arc::new(operator("Leaf", vec![]))])),
            Arc::new(operator("Right", vec![])),
        ],
    );
    assert_eq!(displayable(&plan).indent(false), "Root\n  Left\n    Leaf\n  Right\n");
    assert_eq!(displayable(&plan).one_line(), "Root\n");
}

#[test]
fn a_schema_can_be_shown_beside_each_operator() {
    let plan = operator("Root", vec![]);
    let shown = displayable(&plan).set_show_schema(true).one_line();
    assert_eq!(shown, "Root, schema=[id, state]\n");
}

#[test]
fn a_graph_names_every_operator_and_joins_it_to_its_parent() {
    let plan = operator(
        "Root",
        vec![Arc::new(operator("Left", vec![])), Arc::new(operator("Right", vec![]))],
    );
    let graph = displayable(&plan).graphviz();
    assert!(graph.starts_with("strict digraph dot_plan {\n"));
    assert!(graph.ends_with("}\n"));
    for text in ["Root", "Left", "Right", "0 -> 1", "0 -> 2"] {
        assert!(graph.contains(text), "missing {text} in:\n{graph}");
    }
}

#[test]
fn a_final_plan_is_drawn_where_a_tree_is_asked_for() {
    let plan = operator("Root", vec![]);
    let shown = displayable(&plan);
    let drawn = shown.to_stringified(
        false,
        PlanType::FinalPhysicalPlan,
        DisplayFormatType::TreeRender,
    );
    assert_eq!(drawn.plan, shown.tree_render());
    let listed =
        shown.to_stringified(false, PlanType::FinalPhysicalPlan, DisplayFormatType::Default);
    assert_eq!(listed.plan, "Root\n");
}

#[test]
fn metrics_are_empty_where_an_operator_has_none() {
    let plan = operator("Root", vec![]);
    assert_eq!(DisplayableExecutionPlan::with_metrics(&plan).one_line(), "Root, metrics=[]\n");
    assert_eq!(DisplayableExecutionPlan::with_full_metrics(&plan).one_line(), "Root, metrics=[]\n");
}

#[test]
fn wrappers_choose_the_style() {
    let plan = ExtensionExec {
        name: "Op".to_string(),
        labels: Labels {
            default: "short".to_string(),
            verbose: "long".to_string(),
            tree: "drawn".to_string(),
        },
        schema: employee_schema(),
        properties: PlanProperties::single_partition_unknown(),
        children: vec![],
        metrics: None,
    };
    assert_eq!(plan.fmt_as(DisplayFormatType::TreeRender), "drawn");
    let wrapped = DefaultDisplay(plan);
    assert_eq!(wrapped.to_string(), "short");
    assert_eq!(VerboseDisplay(wrapped.0).to_string(), "long");
}

#[test]
fn schemas_and_orderings_render_as_lists() {
    assert_eq!(ProjectSchemaDisplay(&employee_schema()).to_string(), "[id, state]");
    assert_eq!(ProjectSchemaDisplay(&Schema::new(vec![])).to_string(), "[]");
    assert_eq!(display_orderings(&vec![]), "");
    assert_eq!(
        display_orderings(&vec!["a@0 ASC".to_string()]),
        ", output_ordering=[a@0 ASC]"
    );
}

fn measured() -> ExecutionPlan {
    let mut metrics: MetricsSet<NoCustomMetric> = MetricsSet::new();
    for (partition, rows) in [(0, 10), (1, 20)] {
        let mut count = Count::new();
        count.add(rows);
        metrics.push(
            Metric::new(MetricValue::OutputRows(count), Some(partition))
                .with_type(MetricType::Summary)
                .with_category(MetricCategory::Rows),
        );
    }
    let mut batches = Count::new();
    batches.add(3);
    metrics.push(
        Metric::new(MetricValue::OutputBatches(batches), Some(0))
            .with_type(MetricType::Dev)
            .with_category(MetricCategory::Rows),
    );
    let mut leaf = ExtensionExec::leaf("Op", "Op", employee_schema());
    leaf.metrics = Some(metrics);
    ExecutionPlan::Extension(leaf)
}

#[test]
fn metrics_are_shown_together_or_one_by_one() {
    let plan = measured();
    assert_eq!(
        DisplayableExecutionPlan::with_metrics(&plan).one_line(),
        "Op, metrics=[output_rows=30, output_batches=3]\n"
    );
    assert_eq!(
        DisplayableExecutionPlan::with_full_metrics(&plan).one_line(),
        "Op, metrics=[output_rows{partition=0}=10, output_rows{partition=1}=20, output_batches{partition=0}=3]\n"
    );
}

#[test]
fn metrics_are_shown_by_type_and_category() {
    let plan = measured();
    assert_eq!(
        DisplayableExecutionPlan::with_metrics(&plan)
            .set_metric_types(vec![MetricType::Summary])
            .one_line(),
        "Op, metrics=[output_rows=30]\n"
    );
    assert_eq!(
        DisplayableExecutionPlan::with_metrics(&plan)
            .set_metric_categories(Some(vec![MetricCategory::Timing]))
            .one_line(),
        "Op, metrics=[]\n"
    );
}

#[test]
fn metrics_without_category_are_shown_with_every_category() {
    let mut metrics: MetricsSet<NoCustomMetric> = MetricsSet::new();
    let mut rows = Count::new();
    rows.add(5);
    metrics.push(
        Metric::new(MetricValue::OutputRows(rows), None)
            .with_type(MetricType::Summary)
            .with_category(MetricCategory::Rows),
    );
    let mut other = Count::new();
    other.add(7);
    metrics.push(
        Metric::new(MetricValue::Count { name: "c".to_string(), count: other }, None)
            .with_type(MetricType::Summary),
    );
    let mut leaf = ExtensionExec::leaf("Op", "Op", employee_schema());
    leaf.metrics = Some(metrics);
    let plan = ExecutionPlan::Extension(leaf);
    let shown = |categories: Option<Vec<MetricCategory>>| {
        DisplayableExecutionPlan::with_full_metrics(&plan).set_metric_categories(categories).one_line()
    };
    assert_eq!(shown(None), "Op, metrics=[output_rows=5, c=7]\n");
    assert_eq!(shown(Some(vec![MetricCategory::Rows])), "Op, metrics=[output_rows=5, c=7]\n");
    assert_eq!(shown(Some(vec![MetricCategory::Timing])), "Op, metrics=[c=7]\n");
    assert_eq!(shown(Some(vec![])), "Op, metrics=[]\n");
}

#[test]
fn statistics_are_shown_empty() {
    let plan = operator("Root", vec![]);
    assert_eq!(
        displayable(&plan).set_show_statistics(true).one_line(),
        "Root, statistics=[]\n"
    );
}
