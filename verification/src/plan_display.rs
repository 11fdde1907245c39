//! Showing a plan: line by line, as a graph, or as a tree of boxes.
use vstd::prelude::*;
use crate::display::{DisplayAs, DisplayFormatType, ProjectSchemaDisplay};
use crate::metrics::cells::{MetricCategory, MetricType};
use crate::metrics::metrics_set::{MetricModel, MetricsSet};
use crate::metrics::value::NoCustomMetric;
use crate::plan::ExecutionPlan;
use crate::plan_visitor::{accept, ExecutionPlanVisitor};
use crate::render_plan::render_plan;
use crate::text::{push_decimal, push_repeat, replaced};
use crate::tree_render::RenderTree;
use crate::metrics::metrics_set;
use crate::{display, plan_visitor, render_plan, text, tree_layers};

verus! {

/// Which metrics are shown.
#[derive(Clone, Copy, Debug, PartialEq, Eq, Structural)]
pub enum ShowMetrics {
    /// None.
    Nothing,
    /// Those of all partitions taken together, by name.
    Aggregated,
    /// Each of them.
    Full,
}

/// What is shown of each operator besides its text.
#[derive(Debug)]
pub struct ShowOptions {
    pub show_metrics: ShowMetrics,
    pub show_statistics: bool,
    pub show_schema: bool,
    pub metric_types: Vec<MetricType>,
    pub metric_categories: Option<Vec<MetricCategory>>,
}

/// The mathematical value of the options.
pub struct ShowModel {
    pub show_metrics: ShowMetrics,
    pub show_statistics: bool,
    pub show_schema: bool,
    pub metric_types: Seq<MetricType>,
    pub metric_categories: Option<Seq<MetricCategory>>,
}

impl View for ShowOptions {
    type V = ShowModel;

    open spec fn view(&self) -> ShowModel {
        ShowModel {
            show_metrics: self.show_metrics,
            show_statistics: self.show_statistics,
            show_schema: self.show_schema,
            metric_types: self.metric_types@,
            metric_categories: match self.metric_categories {
                Some(c) => Some(c@),
                None => None,
            },
        }
    }
}

/// The metrics meant for the readers that are asked for.
pub open spec fn typed_metrics(metrics: Seq<MetricModel<()>>, o: ShowModel) -> Seq<
    MetricModel<()>,
> {
    metrics_set::kept_metrics(
        metrics,
        |m: MetricModel<()>| o.metric_types.contains(m.metric_type),
    )
}

/// The metrics that are shown.
pub open spec fn shown_metrics(metrics: Seq<MetricModel<()>>, o: ShowModel) -> Seq<
    MetricModel<()>,
> {
    let typed = typed_metrics(metrics, o);
    let staged = if o.show_metrics == ShowMetrics::Aggregated {
        metrics_set::kept_metrics(
            metrics_set::display_sorted(metrics_set::by_name::<NoCustomMetric>(typed)),
            |m: MetricModel<()>| !(m.value is StartTimestamp || m.value is EndTimestamp),
        )
    } else {
        typed
    };
    match o.metric_categories {
        Some(categories) => metrics_set::kept_metrics(
            staged,
            |m: MetricModel<()>| metrics_set::shown_under(m, categories),
        ),
        None => staged,
    }
}

/// What is shown of the metrics of an operator.
pub open spec fn metrics_part(plan: ExecutionPlan, o: ShowModel) -> Seq<char> {
    if o.show_metrics == ShowMetrics::Nothing {
        seq![]
    } else {
        match plan.spec_metrics() {
            Some(metrics) => ", metrics=["@ + metrics_set::metrics_text::<NoCustomMetric>(
                shown_metrics(metrics, o),
            ) + "]"@,
            None => ", metrics=[]"@,
        }
    }
}

/// What is shown of the statistics of an operator, of which there are none.
pub open spec fn statistics_part(o: ShowModel) -> Seq<char> {
    if o.show_statistics {
        ", statistics=[]"@
    } else {
        seq![]
    }
}

/// What is shown of the schema of an operator.
pub open spec fn schema_part(plan: ExecutionPlan, o: ShowModel) -> Seq<char> {
    if o.show_schema {
        ", schema="@ + display::schema_text(plan.spec_schema())
    } else {
        seq![]
    }
}

/// Whether an operator can be shown: it has a text, metrics of one name that are
/// taken together are of one kind, and those that are shown have texts.
pub open spec fn showable(plan: ExecutionPlan, o: ShowModel) -> bool {
    &&& plan.displayable()
    &&& o.show_metrics != ShowMetrics::Nothing ==> (plan.spec_metrics() matches Some(metrics) ==> (
    o.show_metrics == ShowMetrics::Aggregated ==> metrics_set::names_agree(
        typed_metrics(metrics, o),
    )) && metrics_set::all_displayable(shown_metrics(metrics, o)))
}

/// Whether every operator of a plan can be shown.
pub open spec fn all_showable(plan: ExecutionPlan, o: ShowModel) -> bool {
    plan_visitor::all_nodes(plan, |op: ExecutionPlan| showable(op, o))
}

/// The line of an operator.
pub open spec fn line_text(plan: ExecutionPlan, t: DisplayFormatType, o: ShowModel) -> Seq<char> {
    plan.rendered(t) + metrics_part(plan, o) + statistics_part(o) + schema_part(plan, o)
}

/// One line per operator, each two spaces further in than the one above it.
pub open spec fn indent_text(
    plan: ExecutionPlan,
    t: DisplayFormatType,
    o: ShowModel,
    depth: nat,
) -> Seq<char>
    decreases plan, plan.spec_children().len() + 1,
{
    text::repeat("  "@, depth) + line_text(plan, t, o) + "\n"@ + indent_from(
        plan,
        t,
        o,
        depth + 1,
        0,
    )
}

/// The lines of the children from `i` on.
pub open spec fn indent_from(
    plan: ExecutionPlan,
    t: DisplayFormatType,
    o: ShowModel,
    depth: nat,
    i: nat,
) -> Seq<char>
    decreases plan, plan.spec_children().len() - i,
{
    if i < plan.spec_children().len() {
        proof {
            plan_visitor::child_is_smaller(plan, i as int);
        }
        indent_text(*plan.spec_children()[i as int], t, o, depth) + indent_from(
            plan,
            t,
            o,
            depth,
            i + 1,
        )
    } else {
        seq![]
    }
}

/// The metrics of an operator, as they are shown.
fn push_metrics(out: &mut String, plan: &ExecutionPlan, options: &ShowOptions)
    requires
        showable(*plan, options@),
    ensures
        final(out)@ == old(out)@ + metrics_part(*plan, options@),
{
    match options.show_metrics {
        ShowMetrics::Nothing => {},
        _ => match plan.metrics() {
            Some(metrics) => {
                let ghost all = metrics@;
                let typed = metrics.filter_by_metric_types(options.metric_types.as_slice());
                proof {
                    let f = |m: MetricModel<()>| options.metric_types@.contains(m.metric_type);
                    let g = |m: MetricModel<()>| options@.metric_types.contains(m.metric_type);
                    assert(f =~= g);
                    assert(typed@ == typed_metrics(all, options@));
                }
                let mut staged: MetricsSet<NoCustomMetric> = match options.show_metrics {
                    ShowMetrics::Aggregated => typed.aggregate_by_name().sorted_for_display().timestamps_removed(),
                    _ => typed,
                };
                if let Some(categories) = &options.metric_categories {
                    let ghost before = staged@;
                    staged = staged.categories_shown(categories.as_slice());
                    proof {
                        let wanted = options@.metric_categories.unwrap();
                        let f = |m: MetricModel<()>| metrics_set::shown_under(m, categories@);
                        let g = |m: MetricModel<()>| metrics_set::shown_under(m, wanted);
                        assert(f =~= g);
                    }
                }
                assert(staged@ == shown_metrics(all, options@));
                out.append(", metrics=[");
                out.append(staged.to_string().as_str());
                out.append("]");
                assert(out@ == old(out)@ + metrics_part(*plan, options@));
            },
            None => out.append(", metrics=[]"),
        },
    }
    assert(out@ == old(out)@ + metrics_part(*plan, options@));
}

/// Writes one line per operator.
#[derive(Debug)]
pub struct IndentVisitor<'a> {
    pub t: DisplayFormatType,
    pub out: String,
    pub indent: usize,
    pub options: &'a ShowOptions,
}

/// The mathematical value of an indenting visitor.
pub struct IndentState {
    pub t: DisplayFormatType,
    pub out: Seq<char>,
    pub indent: usize,
    pub options: ShowModel,
}

impl<'a> ExecutionPlanVisitor for IndentVisitor<'a> {
    type Error = ();

    type State = IndentState;

    open spec fn state(&self) -> IndentState {
        IndentState {
            t: self.t,
            out: self.out@,
            indent: self.indent,
            options: self.options@,
        }
    }

    open spec fn can_enter(state: IndentState, plan: ExecutionPlan) -> bool {
        state.indent < usize::MAX && showable(plan, state.options)
    }

    open spec fn entered(state: IndentState, plan: ExecutionPlan) -> (
        IndentState,
        Result<bool, ()>,
    ) {
        (
            IndentState {
                out: state.out + text::repeat("  "@, state.indent as nat) + line_text(
                    plan,
                    state.t,
                    state.options,
                ) + "\n"@,
                indent: (state.indent + 1) as usize,
                ..state
            },
            Ok(true),
        )
    }

    open spec fn can_leave(state: IndentState, plan: ExecutionPlan) -> bool {
        state.indent > 0
    }

    open spec fn left(state: IndentState, plan: ExecutionPlan) -> (IndentState, Result<bool, ()>) {
        (IndentState { indent: (state.indent - 1) as usize, ..state }, Ok(true))
    }

    fn pre_visit(&mut self, plan: &ExecutionPlan) -> (r: Result<bool, ()>) {
        let ghost start = self.out@;
        push_repeat(&mut self.out, "  ", self.indent);
        self.out.append(plan.fmt_as(self.t).as_str());
        push_metrics(&mut self.out, plan, self.options);
        if self.options.show_statistics {
            self.out.append(", statistics=[]");
        }
        if self.options.show_schema {
            let schema = plan.schema();
            self.out.append(", schema=");
            self.out.append(ProjectSchemaDisplay(&schema).to_string().as_str());
        }
        self.out.append("\n");
        assert(self.out@ == start + text::repeat("  "@, self.indent as nat) + line_text(
            *plan,
            self.t,
            self.options@,
        ) + "\n"@);
        self.indent = self.indent + 1;
        Ok(true)
    }

    fn post_visit(&mut self, plan: &ExecutionPlan) -> (r: Result<bool, ()>) {
        self.indent = self.indent - 1;
        Ok(true)
    }
}

/// Walking a plan with an indenting visitor writes one line per operator.
pub proof fn indent_walk<'a>(state: IndentState, plan: ExecutionPlan)
    requires
        all_showable(plan, state.options),
        state.indent + plan_visitor::node_count(plan) <= usize::MAX,
    ensures
        plan_visitor::walkable::<IndentVisitor<'a>>(state, plan),
        plan_visitor::walked::<IndentVisitor<'a>>(state, plan) == (
            IndentState {
                out: state.out + indent_text(plan, state.t, state.options, state.indent as nat),
                ..state
            },
            Ok::<(), ()>(()),
        ),
    decreases plan, plan.spec_children().len() + 1,
{
    let inside = IndentVisitor::<'a>::entered(state, plan).0;
    indent_walk_from(inside, plan, 0);
    let below = plan_visitor::walked_from::<IndentVisitor<'a>>(inside, plan, 0).0;
    assert(below.out == state.out + indent_text(
        plan,
        state.t,
        state.options,
        state.indent as nat,
    ));
    assert(below.indent == state.indent + 1);
}

proof fn indent_walk_from<'a>(state: IndentState, plan: ExecutionPlan, i: nat)
    requires
        plan_visitor::all_nodes_from(plan, |op: ExecutionPlan| showable(op, state.options), i),
        state.indent + plan_visitor::node_count_from(plan, i) <= usize::MAX,
    ensures
        plan_visitor::walkable_from::<IndentVisitor<'a>>(state, plan, i),
        plan_visitor::walked_from::<IndentVisitor<'a>>(state, plan, i) == (
            IndentState {
                out: state.out + indent_from(
                    plan,
                    state.t,
                    state.options,
                    state.indent as nat,
                    i,
                ),
                ..state
            },
            Ok::<(), ()>(()),
        ),
    decreases plan, plan.spec_children().len() - i,
{
    if i < plan.spec_children().len() {
        plan_visitor::child_is_smaller(plan, i as int);
        let child = *plan.spec_children()[i as int];
        indent_walk(state, child);
        let next = plan_visitor::walked::<IndentVisitor<'a>>(state, child).0;
        indent_walk_from(next, plan, i + 1);
        let last = plan_visitor::walked_from::<IndentVisitor<'a>>(state, plan, i).0;
        assert(last.out == state.out + indent_from(
            plan,
            state.t,
            state.options,
            state.indent as nat,
            i,
        ));
    } else {
        assert(state.out + indent_from(plan, state.t, state.options, state.indent as nat, i)
            == state.out);
    }
}

/// The label of an operator in a graph, with backslashes and quotes escaped.
pub open spec fn graph_label(plan: ExecutionPlan, o: ShowModel) -> Seq<char> {
    text::replace_char(
        text::replace_char(
            plan.rendered(DisplayFormatType::Default) + metrics_part(plan, o) + statistics_part(o),
            '\\',
            "\\\\"@,
        ),
        '"',
        "\\\""@,
    )
}

/// The node of an operator in a graph, and the edge from its parent.
pub open spec fn graph_node(
    plan: ExecutionPlan,
    o: ShowModel,
    id: nat,
    parent: Option<nat>,
) -> Seq<char> {
    "  "@ + text::decimal(id) + "[label=\""@ + graph_label(plan, o) + "\",tooltip=\"\"]\n"@
        + match parent {
        Some(p) => "  "@ + text::decimal(p) + " -> "@ + text::decimal(id) + "\n"@,
        None => seq![],
    }
}

/// The nodes and edges of a plan whose operators are numbered from `id` on, in
/// the order in which they are reached.
pub open spec fn graph_text(
    plan: ExecutionPlan,
    o: ShowModel,
    id: nat,
    parent: Option<nat>,
) -> Seq<char>
    decreases plan, plan.spec_children().len() + 1,
{
    graph_node(plan, o, id, parent) + graph_from(plan, o, id + 1, id, 0)
}

/// The nodes and edges of the children from `i` on.
pub open spec fn graph_from(plan: ExecutionPlan, o: ShowModel, id: nat, parent: nat, i: nat) -> Seq<
    char,
>
    decreases plan, plan.spec_children().len() - i,
{
    if i < plan.spec_children().len() {
        proof {
            plan_visitor::child_is_smaller(plan, i as int);
        }
        let child = *plan.spec_children()[i as int];
        graph_text(child, o, id, Some(parent)) + graph_from(
            plan,
            o,
            id + plan_visitor::node_count(child),
            parent,
            i + 1,
        )
    } else {
        seq![]
    }
}

/// Writes a plan as a graph.
#[derive(Debug)]
pub struct GraphvizVisitor<'a> {
    pub out: String,
    pub options: &'a ShowOptions,
    pub next_id: usize,
    pub parents: Vec<usize>,
}

/// The mathematical value of a graph visitor.
pub struct GraphvizState {
    pub out: Seq<char>,
    pub options: ShowModel,
    pub next_id: usize,
    pub parents: Seq<usize>,
}

/// The last of some numbers.
pub open spec fn last_of(numbers: Seq<usize>) -> Option<nat> {
    if numbers.len() > 0 {
        Some(numbers.last() as nat)
    } else {
        None
    }
}

impl<'a> GraphvizVisitor<'a> {
    /// Opens the graph.
    pub fn start_graph(&mut self)
        ensures
            final(self).out@ == old(self).out@ + "strict digraph dot_plan {\n"@,
            final(self).options == old(self).options,
            final(self).next_id == old(self).next_id,
            final(self).parents == old(self).parents,
    {
        self.out.append("strict digraph dot_plan {\n");
    }

    /// Closes the graph.
    pub fn end_graph(&mut self)
        ensures
            final(self).out@ == old(self).out@ + "}\n"@,
            final(self).options == old(self).options,
            final(self).next_id == old(self).next_id,
            final(self).parents == old(self).parents,
    {
        self.out.append("}\n");
    }
}

impl<'a> ExecutionPlanVisitor for GraphvizVisitor<'a> {
    type Error = ();

    type State = GraphvizState;

    open spec fn state(&self) -> GraphvizState {
        GraphvizState {
            out: self.out@,
            options: self.options@,
            next_id: self.next_id,
            parents: self.parents@,
        }
    }

    open spec fn can_enter(state: GraphvizState, plan: ExecutionPlan) -> bool {
        state.next_id < usize::MAX && showable(plan, state.options)
    }

    open spec fn entered(state: GraphvizState, plan: ExecutionPlan) -> (
        GraphvizState,
        Result<bool, ()>,
    ) {
        (
            GraphvizState {
                out: state.out + graph_node(
                    plan,
                    state.options,
                    state.next_id as nat,
                    last_of(state.parents),
                ),
                next_id: (state.next_id + 1) as usize,
                parents: state.parents.push(state.next_id),
                ..state
            },
            Ok(true),
        )
    }

    open spec fn can_leave(state: GraphvizState, plan: ExecutionPlan) -> bool {
        state.parents.len() > 0
    }

    open spec fn left(state: GraphvizState, plan: ExecutionPlan) -> (
        GraphvizState,
        Result<bool, ()>,
    ) {
        (GraphvizState { parents: state.parents.drop_last(), ..state }, Ok(true))
    }

    fn pre_visit(&mut self, plan: &ExecutionPlan) -> (r: Result<bool, ()>) {
        let ghost start = self.out@;
        let ghost above = self.parents@;
        let id: usize = self.next_id;
        self.next_id = id + 1;
        let mut label: String = plan.fmt_as(DisplayFormatType::Default);
        push_metrics(&mut label, plan, self.options);
        if self.options.show_statistics {
            label.append(", statistics=[]");
        }
        assert(label@ == plan.rendered(DisplayFormatType::Default) + metrics_part(
            *plan,
            self.options@,
        ) + statistics_part(self.options@));
        let label = replaced(label.as_str(), '\\', "\\\\");
        let label = replaced(label.as_str(), '"', "\\\"");
        self.out.append("  ");
        push_decimal(&mut self.out, id as u128);
        self.out.append("[label=\"");
        self.out.append(label.as_str());
        self.out.append("\",tooltip=\"\"]\n");
        let depth: usize = self.parents.len();
        if depth > 0 {
            let parent: usize = self.parents[depth - 1];
            self.out.append("  ");
            push_decimal(&mut self.out, parent as u128);
            self.out.append(" -> ");
            push_decimal(&mut self.out, id as u128);
            self.out.append("\n");
        }
        assert(self.out@ == start + graph_node(
            *plan,
            self.options@,
            id as nat,
            last_of(above),
        ));
        self.parents.push(id);
        Ok(true)
    }

    fn post_visit(&mut self, plan: &ExecutionPlan) -> (r: Result<bool, ()>) {
        self.parents.pop();
        Ok(true)
    }
}

/// Walking a plan with a graph visitor writes its nodes and edges.
pub proof fn graph_walk<'a>(state: GraphvizState, plan: ExecutionPlan)
    requires
        all_showable(plan, state.options),
        state.next_id + plan_visitor::node_count(plan) <= usize::MAX,
    ensures
        plan_visitor::walkable::<GraphvizVisitor<'a>>(state, plan),
        plan_visitor::walked::<GraphvizVisitor<'a>>(state, plan) == (
            GraphvizState {
                out: state.out + graph_text(
                    plan,
                    state.options,
                    state.next_id as nat,
                    last_of(state.parents),
                ),
                next_id: (state.next_id + plan_visitor::node_count(plan)) as usize,
                ..state
            },
            Ok::<(), ()>(()),
        ),
    decreases plan, plan.spec_children().len() + 1,
{
    let inside = GraphvizVisitor::<'a>::entered(state, plan).0;
    graph_walk_from(inside, plan, 0);
    let below = plan_visitor::walked_from::<GraphvizVisitor<'a>>(inside, plan, 0).0;
    assert(below.out == state.out + graph_text(
        plan,
        state.options,
        state.next_id as nat,
        last_of(state.parents),
    ));
    assert(below.parents == state.parents.push(state.next_id));
    assert(below.parents.drop_last() == state.parents);
}

proof fn graph_walk_from<'a>(state: GraphvizState, plan: ExecutionPlan, i: nat)
    requires
        plan_visitor::all_nodes_from(plan, |op: ExecutionPlan| showable(op, state.options), i),
        state.next_id + plan_visitor::node_count_from(plan, i) <= usize::MAX,
        state.parents.len() > 0,
    ensures
        plan_visitor::walkable_from::<GraphvizVisitor<'a>>(state, plan, i),
        plan_visitor::walked_from::<GraphvizVisitor<'a>>(state, plan, i) == (
            GraphvizState {
                out: state.out + graph_from(
                    plan,
                    state.options,
                    state.next_id as nat,
                    state.parents.last() as nat,
                    i,
                ),
                next_id: (state.next_id + plan_visitor::node_count_from(plan, i)) as usize,
                ..state
            },
            Ok::<(), ()>(()),
        ),
    decreases plan, plan.spec_children().len() - i,
{
    if i < plan.spec_children().len() {
        plan_visitor::child_is_smaller(plan, i as int);
        let child = *plan.spec_children()[i as int];
        graph_walk(state, child);
        let next = plan_visitor::walked::<GraphvizVisitor<'a>>(state, child).0;
        graph_walk_from(next, plan, i + 1);
        let last = plan_visitor::walked_from::<GraphvizVisitor<'a>>(state, plan, i).0;
        assert(last.out == state.out + graph_from(
            plan,
            state.options,
            state.next_id as nat,
            state.parents.last() as nat,
            i,
        ));
    } else {
        assert(state.out + graph_from(
            plan,
            state.options,
            state.next_id as nat,
            state.parents.last() as nat,
            i,
        ) == state.out);
    }
}

/// What a plan that is shown stands for.
#[derive(Debug)]
pub enum PlanType {
    InitialLogicalPlan,
    FinalLogicalPlan,
    InitialPhysicalPlan,
    /// What a rule of the optimizer made of a plan.
    OptimizedPhysicalPlan { optimizer_name: String },
    FinalPhysicalPlan,
    PhysicalPlanError,
}

/// A plan as text.
#[derive(Debug)]
pub struct StringifiedPlan {
    pub plan_type: PlanType,
    pub plan: String,
}

impl StringifiedPlan {
    /// A plan as text.
    pub fn new(plan_type: PlanType, plan: String) -> (r: Self)
        ensures
            r == (StringifiedPlan { plan_type, plan }),
    {
        StringifiedPlan { plan_type, plan }
    }
}

/// A plan and what is shown of it.
#[derive(Debug)]
pub struct DisplayableExecutionPlan<'a> {
    pub inner: &'a ExecutionPlan,
    pub options: ShowOptions,
    /// How wide a drawn tree may be, in characters; zero sets no bound.
    pub tree_maximum_render_width: usize,
}

/// A plan, ready to be shown.
pub fn displayable(plan: &ExecutionPlan) -> (r: DisplayableExecutionPlan<'_>)
    ensures
        r.is_plain(plan, ShowMetrics::Nothing),
{
    DisplayableExecutionPlan::new(plan)
}

fn default_metric_types() -> (r: Vec<MetricType>)
    ensures
        r@ == seq![MetricType::Summary, MetricType::Dev],
{
    let mut r: Vec<MetricType> = Vec::new();
    r.push(MetricType::Summary);
    r.push(MetricType::Dev);
    assert(r@ == seq![MetricType::Summary, MetricType::Dev]);
    r
}

/// The style of a line.
pub open spec fn line_style(verbose: bool) -> DisplayFormatType {
    if verbose {
        DisplayFormatType::Verbose
    } else {
        DisplayFormatType::Default
    }
}

impl<'a> DisplayableExecutionPlan<'a> {
    /// Nothing but the given metrics is shown, of all kinds, and a drawn tree is
    /// at most 240 characters wide.
    pub open spec fn is_plain(&self, plan: &ExecutionPlan, show_metrics: ShowMetrics) -> bool {
        &&& self.inner == plan
        &&& self.options@ == (ShowModel {
            show_metrics,
            show_statistics: false,
            show_schema: false,
            metric_types: seq![MetricType::Summary, MetricType::Dev],
            metric_categories: None,
        })
        &&& self.tree_maximum_render_width == 240
    }

    fn plain(inner: &'a ExecutionPlan, show_metrics: ShowMetrics) -> (r: Self)
        ensures
            r.is_plain(inner, show_metrics),
    {
        DisplayableExecutionPlan {
            inner,
            options: ShowOptions {
                show_metrics,
                show_statistics: false,
                show_schema: false,
                metric_types: default_metric_types(),
                metric_categories: None,
            },
            tree_maximum_render_width: 240,
        }
    }

    /// Shows no metrics.
    pub fn new(inner: &'a ExecutionPlan) -> (r: Self)
        ensures
            r.is_plain(inner, ShowMetrics::Nothing),
    {
        Self::plain(inner, ShowMetrics::Nothing)
    }

    /// Shows the metrics of all partitions taken together.
    pub fn with_metrics(inner: &'a ExecutionPlan) -> (r: Self)
        ensures
            r.is_plain(inner, ShowMetrics::Aggregated),
    {
        Self::plain(inner, ShowMetrics::Aggregated)
    }

    /// Shows each metric.
    pub fn with_full_metrics(inner: &'a ExecutionPlan) -> (r: Self)
        ensures
            r.is_plain(inner, ShowMetrics::Full),
    {
        Self::plain(inner, ShowMetrics::Full)
    }

    /// Whether schemas are shown.
    pub fn set_show_schema(self, show_schema: bool) -> (r: Self)
        ensures
            r == (DisplayableExecutionPlan {
                options: ShowOptions { show_schema, ..self.options },
                ..self
            }),
    {
        let mut r = self;
        r.options.show_schema = show_schema;
        r
    }

    /// Whether statistics are shown.
    pub fn set_show_statistics(self, show_statistics: bool) -> (r: Self)
        ensures
            r == (DisplayableExecutionPlan {
                options: ShowOptions { show_statistics, ..self.options },
                ..self
            }),
    {
        let mut r = self;
        r.options.show_statistics = show_statistics;
        r
    }

    /// The readers whose metrics are shown.
    pub fn set_metric_types(self, metric_types: Vec<MetricType>) -> (r: Self)
        ensures
            r == (DisplayableExecutionPlan {
                options: ShowOptions { metric_types, ..self.options },
                ..self
            }),
    {
        let mut r = self;
        r.options.metric_types = metric_types;
        r
    }

    /// The categories whose metrics are shown, besides the metrics without
    /// category; an empty list shows no metrics, and no list shows all.
    pub fn set_metric_categories(self, metric_categories: Option<Vec<MetricCategory>>) -> (r: Self)
        ensures
            r == (DisplayableExecutionPlan {
                options: ShowOptions { metric_categories, ..self.options },
                ..self
            }),
    {
        let mut r = self;
        r.options.metric_categories = metric_categories;
        r
    }

    /// How wide a drawn tree may be.
    pub fn set_tree_maximum_render_width(self, width: usize) -> (r: Self)
        ensures
            r == (DisplayableExecutionPlan { tree_maximum_render_width: width, ..self }),
    {
        let mut r = self;
        r.tree_maximum_render_width = width;
        r
    }

    /// Whether the plan can be shown: every operator can, and there are numbers
    /// for all of them.
    pub open spec fn can_show(&self) -> bool {
        all_showable(*self.inner, self.options@) && plan_visitor::node_count(*self.inner)
            <= usize::MAX
    }

    /// Whether the plan can be drawn: every operator has a text and fits its
    /// box, and there are numbers for all places of the grid.
    pub open spec fn can_draw(&self) -> bool {
        render_plan::placeable(*self.inner) && plan_visitor::all_nodes(
            *self.inner,
            |op: ExecutionPlan| op.displayable(),
        ) && render_plan::drawable(*self.inner)
    }

    /// One line per operator, each two spaces further in than the one above it.
    pub fn indent(&self, verbose: bool) -> (r: String)
        requires
            self.can_show(),
        ensures
            r@ == indent_text(*self.inner, line_style(verbose), self.options@, 0),
    {
        let t = if verbose {
            DisplayFormatType::Verbose
        } else {
            DisplayFormatType::Default
        };
        let mut visitor = IndentVisitor { t, out: String::new(), indent: 0, options: &self.options };
        proof {
            indent_walk(visitor.state(), *self.inner);
        }
        let _done = accept(self.inner, &mut visitor);
        assert(visitor.state().out == Seq::<char>::empty() + indent_text(
            *self.inner,
            t,
            self.options@,
            0,
        ));
        visitor.out
    }

    /// The line of the first operator alone.
    pub fn one_line(&self) -> (r: String)
        requires
            showable(*self.inner, self.options@),
        ensures
            r@ == line_text(*self.inner, DisplayFormatType::Default, self.options@) + "\n"@,
    {
        let mut visitor = IndentVisitor {
            t: DisplayFormatType::Default,
            out: String::new(),
            indent: 0,
            options: &self.options,
        };
        let _done = visitor.pre_visit(self.inner);
        assert(visitor.state().out == line_text(
            *self.inner,
            DisplayFormatType::Default,
            self.options@,
        ) + "\n"@);
        visitor.out
    }

    /// The plan as a graph in the language of Graphviz.
    pub fn graphviz(&self) -> (r: String)
        requires
            self.can_show(),
        ensures
            r@ == "strict digraph dot_plan {\n"@ + graph_text(*self.inner, self.options@, 0, None)
                + "}\n"@,
    {
        let mut visitor = GraphvizVisitor {
            out: String::new(),
            options: &self.options,
            next_id: 0,
            parents: Vec::new(),
        };
        visitor.start_graph();
        proof {
            graph_walk(visitor.state(), *self.inner);
        }
        let ghost before = visitor.state();
        let _done = accept(self.inner, &mut visitor);
        assert(visitor.state().out == before.out + graph_text(
            *self.inner,
            self.options@,
            0,
            None,
        ));
        visitor.end_graph();
        assert(visitor.out@ == "strict digraph dot_plan {\n"@ + graph_text(
            *self.inner,
            self.options@,
            0,
            None,
        ) + "}\n"@);
        visitor.out
    }

    /// The plan drawn as a tree of boxes.
    pub fn tree_render(&self) -> (r: String)
        requires
            self.can_draw(),
        ensures
            exists|root: RenderTree| #[trigger]
                render_plan::draws(root, *self.inner) && r@ == tree_layers::tree_text(
                    &root,
                    self.tree_maximum_render_width as int,
                ),
    {
        render_plan(self.inner, self.tree_maximum_render_width)
    }

    /// The plan as text: drawn as a tree where a tree of the final plan is asked
    /// for, and line by line otherwise.
    pub fn to_stringified(
        &self,
        verbose: bool,
        plan_type: PlanType,
        explain_format: DisplayFormatType,
    ) -> (r: StringifiedPlan)
        requires
            if explain_format == DisplayFormatType::TreeRender && plan_type is FinalPhysicalPlan {
                self.can_draw()
            } else {
                self.can_show()
            },
        ensures
            r.plan_type == plan_type,
            if explain_format == DisplayFormatType::TreeRender && plan_type is FinalPhysicalPlan {
                exists|root: RenderTree| #[trigger]
                    render_plan::draws(root, *self.inner) && r.plan@ == tree_layers::tree_text(
                        &root,
                        self.tree_maximum_render_width as int,
                    )
            } else {
                r.plan@ == indent_text(*self.inner, line_style(verbose), self.options@, 0)
            },
    {
        match (explain_format, &plan_type) {
            (DisplayFormatType::TreeRender, PlanType::FinalPhysicalPlan) => {
                let plan = self.tree_render();
                StringifiedPlan::new(plan_type, plan)
            },
            _ => {
                let plan = self.indent(verbose);
                StringifiedPlan::new(plan_type, plan)
            },
        }
    }
}

} // verus!
