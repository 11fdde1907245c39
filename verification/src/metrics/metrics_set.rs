//! Labelled metrics, and sets of them.
use vstd::prelude::*;
use vstd::std_specs::cmp::PartialEqSpec;
use vstd::std_specs::convert::{FromSpec, IntoSpec};
use vstd::std_specs::hash::DefaultHasherAdditionalSpecFns;
use std::borrow::Cow;
use std::collections::hash_map::DefaultHasher;
use std::hash::Hasher;
use std::sync::Arc;
use crate::metrics::cells::{MetricCategory, MetricType};
use crate::metrics::value::{CustomMetricValue, Measure, MetricValue};
use crate::metrics::value;
use crate::text::{is_text_less, owned, same_text};
use crate::text;

verus! {

/// A piece of text of a label: borrowed for good, owned, or shared.
#[derive(Debug)]
pub enum LabelValue {
    Static(&'static str),
    Owned(String),
    Shared(Arc<str>),
}

impl View for LabelValue {
    type V = Seq<char>;

    open spec fn view(&self) -> Seq<char> {
        match *self {
            LabelValue::Static(s) => s@,
            LabelValue::Owned(s) => s@,
            LabelValue::Shared(s) => s@,
        }
    }
}

impl Clone for LabelValue {
    fn clone(&self) -> (r: Self)
        ensures
            r@ == self@,
    {
        LabelValue::Owned(self.to_string())
    }
}

impl LabelValue {
    /// The text.
    pub fn as_str(&self) -> (r: &str)
        ensures
            r@ == self@,
    {
        match self {
            LabelValue::Static(s) => s,
            LabelValue::Owned(s) => s.as_str(),
            LabelValue::Shared(s) => &**s,
        }
    }

    /// The text, owned.
    pub fn to_string(&self) -> (r: String)
        ensures
            r@ == self@,
    {
        owned(self.as_str())
    }

    /// Hashes the text, however it is held.
    pub fn hash(&self, state: &mut DefaultHasher)
        ensures
            final(state)@ == old(state)@ + label_writes(self@),
    {
        state.write(self.as_str().as_bytes());
        let mut end: Vec<u8> = Vec::new();
        end.push(0xff);
        assert(end@ == seq![0xffu8]);
        state.write(end.as_slice());
        assert(state@ == old(state)@ + label_writes(self@));
    }
}

/// What hashing a piece of text writes: its bytes, closed by `0xff`.
pub open spec fn label_writes(text: Seq<char>) -> Seq<Seq<u8>> {
    seq![vstd::utf8::encode_utf8(text), seq![0xffu8]]
}

/// Pieces of text are equal exactly when their texts are, however they are held,
/// and equal ones hash alike.
pub proof fn labels_are_compared_by_text(x: LabelValue, y: LabelValue)
    ensures
        x.eq_spec(&y) <==> x@ == y@,
        x.eq_spec(&y) ==> label_writes(x@) == label_writes(y@),
        x.eq_spec(&y) ==> DefaultHasher::spec_finish(label_writes(x@))
            == DefaultHasher::spec_finish(label_writes(y@)),
{
}

impl From<&'static str> for LabelValue {
    fn from(v: &'static str) -> (r: Self) {
        LabelValue::Static(v)
    }
}

impl vstd::std_specs::convert::FromSpecImpl<&'static str> for LabelValue {
    open spec fn obeys_from_spec() -> bool {
        true
    }

    open spec fn from_spec(v: &'static str) -> Self {
        LabelValue::Static(v)
    }
}

impl From<String> for LabelValue {
    fn from(v: String) -> (r: Self) {
        LabelValue::Owned(v)
    }
}

impl vstd::std_specs::convert::FromSpecImpl<String> for LabelValue {
    open spec fn obeys_from_spec() -> bool {
        true
    }

    open spec fn from_spec(v: String) -> Self {
        LabelValue::Owned(v)
    }
}

impl From<Arc<str>> for LabelValue {
    fn from(v: Arc<str>) -> (r: Self) {
        LabelValue::Shared(v)
    }
}

impl vstd::std_specs::convert::FromSpecImpl<Arc<str>> for LabelValue {
    open spec fn obeys_from_spec() -> bool {
        true
    }

    open spec fn from_spec(v: Arc<str>) -> Self {
        LabelValue::Shared(v)
    }
}

impl From<Cow<'static, str>> for LabelValue {
    fn from(v: Cow<'static, str>) -> (r: Self) {
        match v {
            Cow::Borrowed(text) => LabelValue::Static(text),
            Cow::Owned(text) => LabelValue::Owned(text),
        }
    }
}

impl vstd::std_specs::convert::FromSpecImpl<Cow<'static, str>> for LabelValue {
    open spec fn obeys_from_spec() -> bool {
        true
    }

    open spec fn from_spec(v: Cow<'static, str>) -> Self {
        match v {
            Cow::Borrowed(text) => LabelValue::Static(text),
            Cow::Owned(text) => LabelValue::Owned(text),
        }
    }
}

/// A piece of text has the text that it was made of.
pub proof fn labels_keep_their_text(a: &'static str, b: String, c: Arc<str>, d: Cow<'static, str>)
    ensures
        <LabelValue as FromSpec<&'static str>>::from_spec(a)@ == a@,
        <LabelValue as FromSpec<String>>::from_spec(b)@ == b@,
        <LabelValue as FromSpec<Arc<str>>>::from_spec(c)@ == c@,
        <LabelValue as FromSpec<Cow<'static, str>>>::from_spec(d)@ == d@,
{
}

impl PartialEq for LabelValue {
    fn eq(&self, other: &Self) -> (r: bool) {
        let a: String = owned(self.as_str());
        let b: String = owned(other.as_str());
        same_text(&a, &b)
    }
}

impl vstd::std_specs::cmp::PartialEqSpecImpl for LabelValue {
    open spec fn obeys_eq_spec() -> bool {
        true
    }

    open spec fn eq_spec(&self, other: &Self) -> bool {
        self@ == other@
    }
}

/// A name and a value that tell metrics of one kind apart.
#[derive(Debug)]
pub struct Label {
    pub name: LabelValue,
    pub value: LabelValue,
}

impl View for Label {
    type V = (Seq<char>, Seq<char>);

    open spec fn view(&self) -> (Seq<char>, Seq<char>) {
        (self.name@, self.value@)
    }
}

/// The text of a label.
pub open spec fn label_text(label: (Seq<char>, Seq<char>)) -> Seq<char> {
    label.0 + "="@ + label.1
}

impl PartialEq for Label {
    fn eq(&self, other: &Self) -> (r: bool) {
        self.name == other.name && self.value == other.value
    }
}

impl vstd::std_specs::cmp::PartialEqSpecImpl for Label {
    open spec fn obeys_eq_spec() -> bool {
        true
    }

    open spec fn eq_spec(&self, other: &Self) -> bool {
        self@ == other@
    }
}

impl Clone for Label {
    fn clone(&self) -> (r: Self)
        ensures
            r@ == self@,
    {
        Label {
            name: LabelValue::Owned(self.name.to_string()),
            value: LabelValue::Owned(self.value.to_string()),
        }
    }
}

impl Label {
    /// A label of the given name and value.
    pub fn new<N: Into<LabelValue>, V: Into<LabelValue>>(name: N, value: V) -> (r: Self)
        ensures
            N::obeys_into_spec() ==> r.name == name.into_spec(),
            V::obeys_into_spec() ==> r.value == value.into_spec(),
    {
        let name = name.into();
        let value = value.into();
        Label { name, value }
    }

    /// The name.
    pub fn name(&self) -> (r: &str)
        ensures
            r@ == self@.0,
    {
        self.name.as_str()
    }

    /// The value.
    pub fn value(&self) -> (r: &str)
        ensures
            r@ == self@.1,
    {
        self.value.as_str()
    }

    /// The text of the label.
    pub fn to_string(&self) -> (r: String)
        ensures
            r@ == label_text(self@),
    {
        let mut out: String = owned(self.name());
        out.append("=");
        out.append(self.value());
        out
    }
}

/// The labels of a list.
pub open spec fn labels_of(labels: Seq<Label>) -> Seq<(Seq<char>, Seq<char>)> {
    Seq::new(labels.len(), |i: int| labels[i]@)
}

/// A copy of a list of labels.
pub fn copy_labels(labels: &Vec<Label>) -> (r: Vec<Label>)
    ensures
        labels_of(r@) == labels_of(labels@),
{
    let mut r: Vec<Label> = Vec::new();
    let mut i: usize = 0;
    while i < labels.len()
        invariant
            i <= labels.len(),
            r.len() == i,
            forall|j: int| 0 <= j < i ==> (#[trigger] r@[j])@ == labels@[j]@,
        decreases labels.len() - i,
    {
        r.push(labels[i].clone());
        i += 1;
    }
    assert(labels_of(r@) == labels_of(labels@));
    r
}

/// A metric value with what is known about it.
#[derive(Debug)]
pub struct Metric<C: CustomMetricValue> {
    pub value: MetricValue<C>,
    pub labels: Vec<Label>,
    pub partition: Option<usize>,
    pub metric_type: MetricType,
    pub metric_category: Option<MetricCategory>,
}

/// The mathematical value of a metric.
pub struct MetricModel<M> {
    pub value: Measure<M>,
    pub labels: Seq<(Seq<char>, Seq<char>)>,
    pub partition: Option<usize>,
    pub metric_type: MetricType,
    pub metric_category: Option<MetricCategory>,
}

impl<C: CustomMetricValue> View for Metric<C> {
    type V = MetricModel<C::Model>;

    open spec fn view(&self) -> MetricModel<C::Model> {
        MetricModel {
            value: self.value@,
            labels: labels_of(self.labels@),
            partition: self.partition,
            metric_type: self.metric_type,
            metric_category: self.metric_category,
        }
    }
}

/// The labels shown with a metric: the partition first, where there is one.
pub open spec fn shown_labels<M>(m: MetricModel<M>) -> Seq<Seq<char>> {
    let own = Seq::new(m.labels.len(), |i: int| label_text(m.labels[i]));
    match m.partition {
        Some(p) => seq![label_text(("partition"@, text::decimal(p as nat)))] + own,
        None => own,
    }
}

/// The text of a metric: its name, its labels in braces, and its value.
pub open spec fn metric_text<C: CustomMetricValue>(m: MetricModel<C::Model>) -> Seq<char> {
    let name = value::measure_name(m.value);
    let shown = shown_labels(m);
    let labelled = if shown.len() > 0 {
        name + "{"@ + text::join(shown, ", "@) + "}"@
    } else {
        name
    };
    labelled + "="@ + value::measure_text::<C>(m.value)
}

impl<C: CustomMetricValue> Metric<C> {
    /// The metric as it stands; what is recorded later does not show in it.
    pub fn snapshot(&self) -> (r: Self)
        ensures
            r@ == self@,
    {
        Metric {
            value: self.value.snapshot(),
            labels: copy_labels(&self.labels),
            partition: self.partition,
            metric_type: self.metric_type,
            metric_category: self.metric_category,
        }
    }

    /// A metric without labels, meant for developers, of no category.
    pub fn new(value: MetricValue<C>, partition: Option<usize>) -> (r: Self)
        ensures
            r.value == value,
            r.labels@.len() == 0,
            r.partition == partition,
            r.metric_type == MetricType::Dev,
            r.metric_category is None,
    {
        Metric {
            value,
            labels: Vec::new(),
            partition,
            metric_type: MetricType::Dev,
            metric_category: None,
        }
    }

    /// A metric with labels, meant for developers, of no category.
    pub fn new_with_labels(
        value: MetricValue<C>,
        partition: Option<usize>,
        labels: Vec<Label>,
    ) -> (r: Self)
        ensures
            r == (Metric {
                value,
                labels,
                partition,
                metric_type: MetricType::Dev,
                metric_category: None,
            }),
    {
        Metric { value, labels, partition, metric_type: MetricType::Dev, metric_category: None }
    }

    /// The same metric, meant for someone else.
    pub fn with_type(self, metric_type: MetricType) -> (r: Self)
        ensures
            r == (Metric { metric_type, ..self }),
    {
        Metric { metric_type, ..self }
    }

    /// The same metric of the given category.
    pub fn with_category(self, category: MetricCategory) -> (r: Self)
        ensures
            r == (Metric { metric_category: Some(category), ..self }),
    {
        Metric { metric_category: Some(category), ..self }
    }

    /// The same metric with one more label.
    pub fn with_label(self, label: Label) -> (r: Self)
        ensures
            r.labels@ == self.labels@.push(label),
            r.value == self.value,
            r.partition == self.partition,
            r.metric_type == self.metric_type,
            r.metric_category == self.metric_category,
    {
        let mut labels = self.labels;
        labels.push(label);
        Metric {
            value: self.value,
            labels,
            partition: self.partition,
            metric_type: self.metric_type,
            metric_category: self.metric_category,
        }
    }

    /// The labels.
    pub fn labels(&self) -> (r: &[Label])
        ensures
            r@ == self.labels@,
    {
        self.labels.as_slice()
    }

    /// The value.
    pub fn value(&self) -> (r: &MetricValue<C>)
        ensures
            *r == self.value,
    {
        &self.value
    }

    /// The value, to be changed.
    pub fn value_mut(&mut self) -> (r: &mut MetricValue<C>)
        ensures
            *r == old(self).value,
            *final(self) == (Metric { value: *final(r), ..*old(self) }),
    {
        &mut self.value
    }

    /// The partition the metric was recorded for.
    pub fn partition(&self) -> (r: Option<usize>)
        ensures
            r == self.partition,
    {
        self.partition
    }

    /// For whom the metric is meant.
    pub fn metric_type(&self) -> (r: MetricType)
        ensures
            r == self.metric_type,
    {
        self.metric_type
    }

    /// The kind of quantity the metric measures.
    pub fn metric_category(&self) -> (r: Option<MetricCategory>)
        ensures
            r == self.metric_category,
    {
        self.metric_category
    }

    fn shown_label_strings(&self) -> (r: Vec<String>)
        ensures
            text::views(r@) == shown_labels(self@),
    {
        let mut shown: Vec<String> = Vec::new();
        let ghost first = match self.partition {
            Some(p) => seq![label_text(("partition"@, text::decimal(p as nat)))],
            None => Seq::empty(),
        };
        if let Some(p) = self.partition {
            let label = Label::new("partition", text::decimal_string(p as u128));
            shown.push(label.to_string());
        }
        assert(text::views(shown@) == first);
        let ghost own = Seq::new(self@.labels.len(), |i: int| label_text(self@.labels[i]));
        let mut i: usize = 0;
        while i < self.labels.len()
            invariant
                i <= self.labels.len(),
                own == Seq::new(self@.labels.len(), |i: int| label_text(self@.labels[i])),
                text::views(shown@) == first + own.take(i as int),
            decreases self.labels.len() - i,
        {
            let ghost before = shown@;
            shown.push(self.labels[i].to_string());
            assert(text::views(shown@) == text::views(before).push(own[i as int]));
            i += 1;
            assert(text::views(shown@) == first + own.take(i as int));
        }
        assert(own.take(i as int) == own);
        assert(text::views(shown@) == shown_labels(self@));
        shown
    }

    /// The text of the metric.
    pub fn to_string(&self) -> (r: String)
        requires
            value::displayable(self@.value),
        ensures
            r@ == metric_text::<C>(self@),
    {
        let mut out: String = owned(self.value.name());
        let shown: Vec<String> = self.shown_label_strings();
        assert(text::views(shown@).len() == shown@.len());
        if shown.len() > 0 {
            out.append("{");
            text::push_joined(&mut out, &shown, ", ");
            out.append("}");
        }
        out.append("=");
        let v: String = self.value.to_string();
        out.append(v.as_str());
        out
    }
}

/// The metrics of a list.
pub open spec fn metrics_of<C: CustomMetricValue>(metrics: Seq<Metric<C>>) -> Seq<
    MetricModel<C::Model>,
> {
    Seq::new(metrics.len(), |i: int| metrics[i]@)
}

/// The metrics that satisfy `keep`, in order.
pub open spec fn kept_metrics<M>(
    metrics: Seq<MetricModel<M>>,
    keep: spec_fn(MetricModel<M>) -> bool,
) -> Seq<MetricModel<M>>
    decreases metrics.len(),
{
    if metrics.len() == 0 {
        seq![]
    } else if keep(metrics.last()) {
        kept_metrics(metrics.drop_last(), keep).push(metrics.last())
    } else {
        kept_metrics(metrics.drop_last(), keep)
    }
}

/// The metrics that satisfy `keep`, taken together one after the other from an
/// empty metric on; none where no metric satisfies it.
pub open spec fn summed<C: CustomMetricValue>(
    metrics: Seq<MetricModel<C::Model>>,
    keep: spec_fn(MetricModel<C::Model>) -> bool,
) -> Option<Measure<C::Model>>
    decreases metrics.len(),
{
    if metrics.len() == 0 {
        None
    } else {
        let before = summed::<C>(metrics.drop_last(), keep);
        let last = metrics.last();
        if !keep(last) {
            before
        } else {
            match before {
                None => Some(value::aggregated::<C>(value::emptied::<C>(last.value), last.value)),
                Some(sum) => Some(value::aggregated::<C>(sum, last.value)),
            }
        }
    }
}

/// Whether a metric takes part in the sum of the given name: only counters,
/// times, levels, pruning figures and ratios that were named do.
pub open spec fn summable_as<M>(m: Measure<M>, name: Seq<char>) -> bool {
    match m {
        Measure::Count { name: n, .. } => n == name,
        Measure::Time { name: n, .. } => n == name,
        Measure::Gauge { name: n, .. } => n == name,
        Measure::PeakMemoryUsage { name: n, .. } => n == name,
        Measure::PruningMetrics { name: n, .. } => n == name,
        Measure::Ratio { name: n, .. } => n == name,
        _ => false,
    }
}

/// The position of the metric with the given name.
pub open spec fn position_of_name<M>(metrics: Seq<MetricModel<M>>, name: Seq<char>) -> Option<int>
    decreases metrics.len(),
{
    if metrics.len() == 0 {
        None
    } else if value::measure_name(metrics.last().value) == name {
        Some(metrics.len() - 1)
    } else {
        position_of_name(metrics.drop_last(), name)
    }
}

/// The metrics of each name after one more metric: taken together with the
/// metric of its name, or added at the end. What is added takes the type and the
/// category, not the labels and the partition.
pub open spec fn absorbed<C: CustomMetricValue>(
    before: Seq<MetricModel<C::Model>>,
    m: MetricModel<C::Model>,
) -> Seq<MetricModel<C::Model>> {
    match position_of_name(before, value::measure_name(m.value)) {
        Some(i) => before.update(
            i,
            MetricModel { value: value::aggregated::<C>(before[i].value, m.value), ..before[i] },
        ),
        None => before.push(
            MetricModel {
                value: value::aggregated::<C>(value::emptied::<C>(m.value), m.value),
                labels: seq![],
                partition: None,
                metric_type: m.metric_type,
                metric_category: m.metric_category,
            },
        ),
    }
}

/// The metrics of each name taken together, in the order in which the names
/// first occur. The type and the category are those of the first metric of the
/// name; labels and partition are dropped.
pub open spec fn by_name<C: CustomMetricValue>(metrics: Seq<MetricModel<C::Model>>) -> Seq<
    MetricModel<C::Model>,
>
    decreases metrics.len(),
{
    if metrics.len() == 0 {
        seq![]
    } else {
        absorbed::<C>(by_name::<C>(metrics.drop_last()), metrics.last())
    }
}

/// Whether metrics of one name are of one kind.
pub open spec fn names_agree<M>(metrics: Seq<MetricModel<M>>) -> bool {
    forall|i: int, j: int|
        0 <= i < metrics.len() && 0 <= j < metrics.len() && value::measure_name(
            (#[trigger] metrics[i]).value,
        ) == value::measure_name((#[trigger] metrics[j]).value) ==> value::same_kind(
            metrics[i].value,
            metrics[j].value,
        )
}

/// Whether `a` is shown before `b`: by the place of its kind, and then by name.
pub open spec fn shown_before<M>(a: Measure<M>, b: Measure<M>) -> bool {
    value::sort_key(a) < value::sort_key(b) || (value::sort_key(a) == value::sort_key(b)
        && text::text_less(value::measure_name(a), value::measure_name(b)))
}

/// `sorted` with one more metric, put behind all that are not shown after it.
pub open spec fn inserted<M>(sorted: Seq<MetricModel<M>>, m: MetricModel<M>) -> Seq<MetricModel<M>>
    decreases sorted.len(),
{
    if sorted.len() > 0 && shown_before(m.value, sorted.last().value) {
        inserted(sorted.drop_last(), m).push(sorted.last())
    } else {
        sorted.push(m)
    }
}

/// The metrics in the order in which they are shown; equal ones keep the order
/// they were in.
pub open spec fn display_sorted<M>(metrics: Seq<MetricModel<M>>) -> Seq<MetricModel<M>>
    decreases metrics.len(),
{
    if metrics.len() == 0 {
        seq![]
    } else {
        inserted(display_sorted(metrics.drop_last()), metrics.last())
    }
}

/// Whether every metric has a text.
pub open spec fn all_displayable<M>(metrics: Seq<MetricModel<M>>) -> bool {
    forall|i: int| 0 <= i < metrics.len() ==> value::displayable((#[trigger] metrics[i]).value)
}

/// The text of a set of metrics.
pub open spec fn metrics_text<C: CustomMetricValue>(metrics: Seq<MetricModel<C::Model>>) -> Seq<
    char,
> {
    text::join(Seq::new(metrics.len(), |i: int| metric_text::<C>(metrics[i])), ", "@)
}

/// The category under which a metric is filtered.
pub open spec fn filter_category<M>(m: MetricModel<M>) -> MetricCategory {
    match m.metric_category {
        Some(c) => c,
        None => MetricCategory::Uncategorized,
    }
}

/// Whether a metric is shown where the given categories are asked for: its
/// category is one of them, or it has none. Asking for no category shows
/// nothing.
pub open spec fn shown_under<M>(m: MetricModel<M>, categories: Seq<MetricCategory>) -> bool {
    match m.metric_category {
        Some(c) => categories.contains(c),
        None => categories.len() > 0,
    }
}

/// Some metrics, in the order in which they were recorded.
#[derive(Debug)]
pub struct MetricsSet<C: CustomMetricValue> {
    pub metrics: Vec<Metric<C>>,
}

impl<C: CustomMetricValue> View for MetricsSet<C> {
    type V = Seq<MetricModel<C::Model>>;

    open spec fn view(&self) -> Seq<MetricModel<C::Model>> {
        metrics_of(self.metrics@)
    }
}

impl<C: CustomMetricValue> Default for MetricsSet<C> {
    fn default() -> (r: Self)
        ensures
            r@.len() == 0,
    {
        MetricsSet { metrics: Vec::new() }
    }
}

impl<C: CustomMetricValue> MetricsSet<C> {
    /// The metrics as they stand; what is recorded later does not show in them.
    pub fn snapshot(&self) -> (r: Self)
        ensures
            r@ == self@,
    {
        let mut metrics: Vec<Metric<C>> = Vec::new();
        let mut i: usize = 0;
        while i < self.metrics.len()
            invariant
                i <= self.metrics.len(),
                metrics.len() == i,
                forall|j: int| 0 <= j < i ==> (#[trigger] metrics@[j])@ == self.metrics@[j]@,
            decreases self.metrics.len() - i,
        {
            metrics.push(self.metrics[i].snapshot());
            i += 1;
        }
        let r = MetricsSet { metrics };
        assert(r@ == self@);
        r
    }
}

/// Whether the executable predicate `f` decides the mathematical predicate
/// `keep`.
pub open spec fn decides<C: CustomMetricValue, F: Fn(&Metric<C>) -> bool>(
    f: F,
    keep: spec_fn(MetricModel<C::Model>) -> bool,
) -> bool {
    forall|m: &Metric<C>, b: bool| f.ensures((m,), b) ==> b == keep(m@)
}

fn type_allowed(allowed: &[MetricType], t: MetricType) -> (r: bool)
    ensures
        r == allowed@.contains(t),
{
    let mut i: usize = 0;
    while i < allowed.len()
        invariant
            i <= allowed.len(),
            forall|j: int| 0 <= j < i ==> allowed@[j] != t,
        decreases allowed.len() - i,
    {
        if allowed[i] == t {
            assert(allowed@[i as int] == t);
            return true;
        }
        i += 1;
    }
    false
}

fn category_allowed(allowed: &[MetricCategory], c: MetricCategory) -> (r: bool)
    ensures
        r == allowed@.contains(c),
{
    let mut i: usize = 0;
    while i < allowed.len()
        invariant
            i <= allowed.len(),
            forall|j: int| 0 <= j < i ==> allowed@[j] != c,
        decreases allowed.len() - i,
    {
        if allowed[i] == c {
            assert(allowed@[i as int] == c);
            return true;
        }
        i += 1;
    }
    false
}

impl<C: CustomMetricValue> MetricsSet<C> {
    /// No metrics.
    pub fn new() -> (r: Self)
        ensures
            r@.len() == 0,
    {
        MetricsSet { metrics: Vec::new() }
    }

    /// Adds a metric at the end.
    pub fn push(&mut self, metric: Metric<C>)
        ensures
            final(self).metrics@ == old(self).metrics@.push(metric),
            final(self)@ == old(self)@.push(metric@),
    {
        self.metrics.push(metric);
        assert(self@ == old(self)@.push(metric@));
    }

    /// A set of the given metrics, in order.
    pub fn from_iter(metrics: Vec<Metric<C>>) -> (r: Self)
        ensures
            r.metrics == metrics,
    {
        MetricsSet { metrics }
    }

    /// Adds metrics at the end, in order.
    pub fn extend(&mut self, metrics: Vec<Metric<C>>)
        ensures
            final(self).metrics@ == old(self).metrics@ + metrics@,
    {
        let mut more = metrics;
        self.metrics.append(&mut more);
    }

    /// The metrics themselves, in order.
    pub fn into_iter(self) -> (r: Vec<Metric<C>>)
        ensures
            r == self.metrics,
    {
        self.metrics
    }

    /// The metrics, in order.
    pub fn iter(&self) -> (r: &[Metric<C>])
        ensures
            r@ == self.metrics@,
    {
        self.metrics.as_slice()
    }

    /// Whether there is no metric.
    pub fn is_empty(&self) -> (r: bool)
        ensures
            r == (self@.len() == 0),
    {
        self.metrics.is_empty()
    }

    /// The metrics for which `f` holds, taken together. They must be of one
    /// kind.
    pub fn sum<F: Fn(&Metric<C>) -> bool>(&self, f: F) -> (r: Option<MetricValue<C>>)
        requires
            forall|m: &Metric<C>| #[trigger] f.requires((m,)),
            forall|i: int, j: int|
                0 <= i < self.metrics@.len() && 0 <= j < self.metrics@.len() && f.ensures(
                    (&#[trigger] self.metrics@[i],),
                    true,
                ) && f.ensures((&#[trigger] self.metrics@[j],), true) ==> value::same_kind(
                    self.metrics@[i].value@,
                    self.metrics@[j].value@,
                ),
        ensures
            forall|keep: spec_fn(MetricModel<C::Model>) -> bool| #[trigger]
                decides(f, keep) ==> match r {
                    Some(v) => summed::<C>(self@, keep) == Some(v@),
                    None => summed::<C>(self@, keep) is None,
                },
    {
        let mut accum: Option<MetricValue<C>> = None;
        let ghost mut first: int = 0;
        let mut i: usize = 0;
        while i < self.metrics.len()
            invariant
                i <= self.metrics.len(),
                forall|m: &Metric<C>| #[trigger] f.requires((m,)),
                forall|i: int, j: int|
                    0 <= i < self.metrics@.len() && 0 <= j < self.metrics@.len() && f.ensures(
                        (&#[trigger] self.metrics@[i],),
                        true,
                    ) && f.ensures((&#[trigger] self.metrics@[j],), true) ==> value::same_kind(
                        self.metrics@[i].value@,
                        self.metrics@[j].value@,
                    ),
                accum matches Some(sum) ==> 0 <= first < i && f.ensures(
                    (&self.metrics@[first],),
                    true,
                ) && value::same_kind(sum@, self.metrics@[first].value@),
                forall|keep: spec_fn(MetricModel<C::Model>) -> bool| #[trigger]
                    decides(f, keep) ==> match accum {
                        Some(v) => summed::<C>(self@.take(i as int), keep) == Some(v@),
                        None => summed::<C>(self@.take(i as int), keep) is None,
                    },
            decreases self.metrics.len() - i,
        {
            let chosen: bool = f(&self.metrics[i]);
            assert(self@.take(i + 1).drop_last() == self@.take(i as int));
            assert(self@.take(i + 1).last() == self.metrics@[i as int]@);
            let ghost here = self.metrics@[i as int].value@;
            if chosen {
                match accum {
                    None => {
                        let mut start: MetricValue<C> = self.metrics[i].value.new_empty();
                        start.aggregate(&self.metrics[i].value);
                        proof {
                            first = i as int;
                            value::aggregation_keeps_kind::<C>(value::emptied::<C>(here), here);
                        }
                        accum = Some(start);
                    },
                    Some(mut sum) => {
                        let ghost before = sum@;
                        proof {
                            assert(value::same_kind(
                                self.metrics@[first].value@,
                                self.metrics@[i as int].value@,
                            ));
                            value::aggregation_keeps_kind::<C>(before, here);
                        }
                        sum.aggregate(&self.metrics[i].value);
                        accum = Some(sum);
                    },
                }
            }
            i += 1;
        }
        assert(self@.take(i as int) == self@);
        accum
    }

    /// The rows that came out, over all partitions.
    pub fn output_rows(&self) -> (r: Option<usize>)
        ensures
            match summed::<C>(self@, |m: MetricModel<C::Model>| m.value is OutputRows) {
                Some(sum) => r is Some && r->0 == value::measure_number::<C>(sum),
                None => r is None,
            },
    {
        let f = |m: &Metric<C>| -> (b: bool)
            ensures
                b == (m@.value is OutputRows),
            {
                match m.value {
                    MetricValue::OutputRows(_) => true,
                    _ => false,
                }
            };
        let ghost keep = |m: MetricModel<C::Model>| m.value is OutputRows;
        assert(decides(f, keep));
        match self.sum(f) {
            Some(v) => Some(v.as_usize()),
            None => None,
        }
    }

    /// The spills, over all partitions.
    pub fn spill_count(&self) -> (r: Option<usize>)
        ensures
            match summed::<C>(self@, |m: MetricModel<C::Model>| m.value is SpillCount) {
                Some(sum) => r is Some && r->0 == value::measure_number::<C>(sum),
                None => r is None,
            },
    {
        let f = |m: &Metric<C>| -> (b: bool)
            ensures
                b == (m@.value is SpillCount),
            {
                match m.value {
                    MetricValue::SpillCount(_) => true,
                    _ => false,
                }
            };
        let ghost keep = |m: MetricModel<C::Model>| m.value is SpillCount;
        assert(decides(f, keep));
        match self.sum(f) {
            Some(v) => Some(v.as_usize()),
            None => None,
        }
    }

    /// The bytes spilled, over all partitions.
    pub fn spilled_bytes(&self) -> (r: Option<usize>)
        ensures
            match summed::<C>(self@, |m: MetricModel<C::Model>| m.value is SpilledBytes) {
                Some(sum) => r is Some && r->0 == value::measure_number::<C>(sum),
                None => r is None,
            },
    {
        let f = |m: &Metric<C>| -> (b: bool)
            ensures
                b == (m@.value is SpilledBytes),
            {
                match m.value {
                    MetricValue::SpilledBytes(_) => true,
                    _ => false,
                }
            };
        let ghost keep = |m: MetricModel<C::Model>| m.value is SpilledBytes;
        assert(decides(f, keep));
        match self.sum(f) {
            Some(v) => Some(v.as_usize()),
            None => None,
        }
    }

    /// The rows spilled, over all partitions.
    pub fn spilled_rows(&self) -> (r: Option<usize>)
        ensures
            match summed::<C>(self@, |m: MetricModel<C::Model>| m.value is SpilledRows) {
                Some(sum) => r is Some && r->0 == value::measure_number::<C>(sum),
                None => r is None,
            },
    {
        let f = |m: &Metric<C>| -> (b: bool)
            ensures
                b == (m@.value is SpilledRows),
            {
                match m.value {
                    MetricValue::SpilledRows(_) => true,
                    _ => false,
                }
            };
        let ghost keep = |m: MetricModel<C::Model>| m.value is SpilledRows;
        assert(decides(f, keep));
        match self.sum(f) {
            Some(v) => Some(v.as_usize()),
            None => None,
        }
    }

    /// The time spent, over all partitions.
    pub fn elapsed_compute(&self) -> (r: Option<usize>)
        ensures
            match summed::<C>(self@, |m: MetricModel<C::Model>| m.value is ElapsedCompute) {
                Some(sum) => r is Some && r->0 == value::measure_number::<C>(sum),
                None => r is None,
            },
    {
        let f = |m: &Metric<C>| -> (b: bool)
            ensures
                b == (m@.value is ElapsedCompute),
            {
                match m.value {
                    MetricValue::ElapsedCompute(_) => true,
                    _ => false,
                }
            };
        let ghost keep = |m: MetricModel<C::Model>| m.value is ElapsedCompute;
        assert(decides(f, keep));
        match self.sum(f) {
            Some(v) => Some(v.as_usize()),
            None => None,
        }
    }

    /// The named metrics of the given name, taken together. They must be of one
    /// kind.
    pub fn sum_by_name(&self, metric_name: &str) -> (r: Option<MetricValue<C>>)
        requires
            forall|i: int, j: int|
                0 <= i < self@.len() && 0 <= j < self@.len() && summable_as(
                    (#[trigger] self@[i]).value,
                    metric_name@,
                ) && summable_as((#[trigger] self@[j]).value, metric_name@) ==> value::same_kind(
                    self@[i].value,
                    self@[j].value,
                ),
        ensures
            match r {
                Some(v) => summed::<C>(
                    self@,
                    |m: MetricModel<C::Model>| summable_as(m.value, metric_name@),
                ) == Some(v@),
                None => summed::<C>(
                    self@,
                    |m: MetricModel<C::Model>| summable_as(m.value, metric_name@),
                ) is None,
            },
    {
        let wanted: String = owned(metric_name);
        let f = |m: &Metric<C>| -> (b: bool)
            ensures
                b == summable_as(m@.value, wanted@),
            {
                match &m.value {
                    MetricValue::Count { name, .. } => same_text(name, &wanted),
                    MetricValue::Time { name, .. } => same_text(name, &wanted),
                    MetricValue::Gauge { name, .. } => same_text(name, &wanted),
                    MetricValue::PeakMemoryUsage { name, .. } => same_text(name, &wanted),
                    MetricValue::PruningMetrics { name, .. } => same_text(name, &wanted),
                    MetricValue::Ratio { name, .. } => same_text(name, &wanted),
                    _ => false,
                }
            };
        let ghost keep = |m: MetricModel<C::Model>| summable_as(m.value, metric_name@);
        proof {
            assert(decides(f, keep));
            assert forall|i: int, j: int|
                0 <= i < self.metrics@.len() && 0 <= j < self.metrics@.len() && f.ensures(
                    (&#[trigger] self.metrics@[i],),
                    true,
                ) && f.ensures(
                    (&#[trigger] self.metrics@[j],),
                    true,
                ) implies value::same_kind(
                self.metrics@[i].value@,
                self.metrics@[j].value@,
            ) by {
                assert(summable_as(self@[i].value, metric_name@));
                assert(summable_as(self@[j].value, metric_name@));
            }
        }
        self.sum(f)
    }

    fn position_of(&self, name: &str) -> (r: Option<usize>)
        ensures
            match r {
                Some(i) => position_of_name(self@, name@) == Some(i as int) && i < self@.len(),
                None => position_of_name(self@, name@) is None,
            },
    {
        let wanted: String = owned(name);
        let mut n: usize = self.metrics.len();
        assert(self@.take(n as int) == self@);
        while n > 0
            invariant
                n <= self@.len(),
                self@.len() == self.metrics@.len(),
                wanted@ == name@,
                position_of_name(self@, name@) == position_of_name(self@.take(n as int), name@),
            decreases n,
        {
            let i: usize = n - 1;
            assert(self@.take(n as int).drop_last() == self@.take(i as int));
            assert(self@.take(n as int).last() == self@[i as int]);
            let here: String = owned(self.metrics[i].value.name());
            if same_text(&here, &wanted) {
                return Some(i);
            }
            n = i;
        }
        None
    }

    fn absorb(&mut self, metric: &Metric<C>)
        requires
            position_of_name(old(self)@, value::measure_name(metric@.value)) matches Some(k)
                ==> value::same_kind(old(self)@[k].value, metric@.value),
        ensures
            final(self)@ == absorbed::<C>(old(self)@, metric@),
    {
        let ghost before = self@;
        let ghost here = metric@;
        match self.position_of(metric.value.name()) {
            Some(k) => {
                self.metrics[k].value_mut().aggregate(&metric.value);
                assert(self@ == absorbed::<C>(before, here));
            },
            None => {
                let mut accum: Metric<C> = Metric::new(metric.value.new_empty(), None).with_type(
                    metric.metric_type,
                );
                if let Some(category) = metric.metric_category {
                    accum = accum.with_category(category);
                }
                proof {
                    value::aggregation_keeps_kind::<C>(here.value, here.value);
                }
                let ghost labels = accum.labels@;
                accum.value_mut().aggregate(&metric.value);
                assert(labels_of(labels) == Seq::<(Seq<char>, Seq<char>)>::empty());
                self.push(accum);
                assert(self@ == absorbed::<C>(before, here));
            },
        }
    }

    /// The metrics of each name, taken together. Metrics of one name must be of
    /// one kind.
    pub fn aggregate_by_name(&self) -> (r: Self)
        requires
            names_agree(self@),
        ensures
            r@ == by_name::<C>(self@),
    {
        let mut map: MetricsSet<C> = MetricsSet::new();
        let mut i: usize = 0;
        assert(map@ == by_name::<C>(self@.take(0)));
        while i < self.metrics.len()
            invariant
                names_agree(self@),
                i <= self.metrics.len(),
                map@ == by_name::<C>(self@.take(i as int)),
            decreases self.metrics.len() - i,
        {
            let metric = &self.metrics[i];
            let ghost here = self@[i as int];
            let ghost before = map@;
            assert(here == metric@);
            assert(self@.take(i + 1).drop_last() == self@.take(i as int));
            assert(self@.take(i + 1).last() == here);
            proof {
                position_has_name(before, value::measure_name(here.value));
                if position_of_name(before, value::measure_name(here.value)) is Some {
                    let k = position_of_name(before, value::measure_name(here.value))->0;
                    by_name_kinds::<C>(self@, i as int, k, i as int);
                }
            }
            map.absorb(metric);
            i += 1;
        }
        assert(self@.take(i as int) == self@);
        map
    }

    /// The metrics in the order in which they are shown.
    pub fn sorted_for_display(self) -> (r: Self)
        ensures
            r@ == display_sorted(self@),
    {
        let ghost all = self@;
        let mut rest: Vec<Metric<C>> = self.metrics;
        let mut sorted: MetricsSet<C> = MetricsSet::new();
        let ghost mut i: int = 0;
        assert(all.skip(0) == all);
        assert(sorted@ == display_sorted(all.take(0)));
        while rest.len() > 0
            invariant
                0 <= i <= all.len(),
                metrics_of(rest@) == all.skip(i),
                sorted@ == display_sorted(all.take(i)),
            decreases rest.len(),
        {
            let ghost here = all[i];
            assert(metrics_of(rest@).len() == all.len() - i);
            assert(metrics_of(rest@)[0] == here);
            let ghost earlier = rest@;
            let metric = rest.remove(0);
            proof {
                assert(all.take(i + 1).drop_last() == all.take(i));
                assert(all.take(i + 1).last() == here);
                assert forall|k: int| 0 <= k < rest@.len() implies metrics_of(rest@)[k] == all.skip(
                    i + 1,
                )[k] by {
                    assert(metrics_of(earlier)[k + 1] == all.skip(i)[k + 1]);
                }
                assert(metrics_of(rest@) == all.skip(i + 1));
            }
            sorted.insert_sorted(metric);
            proof {
                i = i + 1;
            }
        }
        assert(all.take(i) == all);
        sorted
    }

    fn insert_sorted(&mut self, metric: Metric<C>)
        ensures
            final(self)@ == inserted(old(self)@, metric@),
    {
        let ghost all = self@;
        let key: u8 = metric.value.display_sort_key();
        let mut n: usize = self.metrics.len();
        assert(all.take(n as int) == all);
        assert(all.skip(n as int) == Seq::<MetricModel<C::Model>>::empty());
        assert(inserted(all, metric@) == inserted(all.take(n as int), metric@) + all.skip(n as int));
        while n > 0
            invariant
                n <= self.metrics.len(),
                self@ == all,
                all == old(self)@,
                key == value::sort_key(metric@.value),
                inserted(all, metric@) == inserted(all.take(n as int), metric@) + all.skip(
                    n as int,
                ),
            decreases n,
        {
            let other = &self.metrics[n - 1].value;
            let other_key: u8 = other.display_sort_key();
            let before: bool = key < other_key || (key == other_key && is_text_less(
                metric.value.name(),
                other.name(),
            ));
            assert(all[n - 1] == self.metrics@[n - 1]@);
            assert(all.take(n as int).last() == all[n - 1]);
            assert(before == shown_before(metric@.value, all[n - 1].value));
            if !before {
                assert(inserted(all.take(n as int), metric@) == all.take(n as int).push(metric@));
                self.metrics.insert(n, metric);
                assert(self@ == all.take(n as int).push(metric@) + all.skip(n as int));
                return;
            }
            assert(all.take(n as int).drop_last() == all.take(n - 1));
            n = n - 1;
            assert(inserted(all, metric@) == inserted(all.take(n as int), metric@) + all.skip(
                n as int,
            ));
        }
        assert(inserted(all.take(0), metric@) == Seq::<MetricModel<C::Model>>::empty().push(
            metric@,
        ));
        self.metrics.insert(0, metric);
        assert(self@ == all.take(0).push(metric@) + all.skip(0));
    }

    fn keep_where(self, keep: &Vec<bool>, Ghost(p): Ghost<spec_fn(MetricModel<C::Model>) -> bool>) -> (r:
        Self)
        requires
            keep@.len() == self@.len(),
            forall|i: int| 0 <= i < self@.len() ==> (#[trigger] keep@[i]) == p(self@[i]),
        ensures
            r@ == kept_metrics(self@, p),
    {
        let ghost all = self@;
        let mut rest: Vec<Metric<C>> = self.metrics;
        let mut kept: MetricsSet<C> = MetricsSet::new();
        let mut i: usize = 0;
        assert(all.skip(0) == all);
        assert(kept@ == kept_metrics(all.take(0), p));
        while i < keep.len()
            invariant
                i <= keep.len(),
                keep@.len() == all.len(),
                forall|i: int| 0 <= i < all.len() ==> (#[trigger] keep@[i]) == p(all[i]),
                metrics_of(rest@) == all.skip(i as int),
                kept@ == kept_metrics(all.take(i as int), p),
            decreases keep.len() - i,
        {
            assert(metrics_of(rest@).len() == all.len() - i);
            assert(metrics_of(rest@)[0] == all[i as int]);
            let ghost earlier = rest@;
            let metric = rest.remove(0);
            proof {
                assert(all.take(i + 1).drop_last() == all.take(i as int));
                assert(all.take(i + 1).last() == all[i as int]);
                assert forall|k: int| 0 <= k < rest@.len() implies metrics_of(rest@)[k] == all.skip(
                    i + 1,
                )[k] by {
                    assert(metrics_of(earlier)[k + 1] == all.skip(i as int)[k + 1]);
                }
                assert(metrics_of(rest@) == all.skip(i + 1));
            }
            if keep[i] {
                kept.push(metric);
            }
            i += 1;
        }
        assert(all.take(i as int) == all);
        kept
    }

    /// The metrics without starts and ends.
    pub fn timestamps_removed(self) -> (r: Self)
        ensures
            r@ == kept_metrics(
                self@,
                |m: MetricModel<C::Model>| !(m.value is StartTimestamp || m.value is EndTimestamp),
            ),
    {
        let mut keep: Vec<bool> = Vec::new();
        let mut i: usize = 0;
        while i < self.metrics.len()
            invariant
                i <= self.metrics.len(),
                keep.len() == i,
                forall|j: int|
                    0 <= j < i ==> (#[trigger] keep@[j]) == !(self@[j].value is StartTimestamp
                        || self@[j].value is EndTimestamp),
            decreases self.metrics.len() - i,
        {
            keep.push(!self.metrics[i].value.is_timestamp());
            i += 1;
        }
        self.keep_where(
            &keep,
            Ghost(
                |m: MetricModel<C::Model>| !(m.value is StartTimestamp || m.value is EndTimestamp),
            ),
        )
    }

    /// The metrics meant for one of the given readers.
    pub fn filter_by_metric_types(self, allowed: &[MetricType]) -> (r: Self)
        ensures
            r@ == kept_metrics(
                self@,
                |m: MetricModel<C::Model>| allowed@.contains(m.metric_type),
            ),
    {
        let mut keep: Vec<bool> = Vec::new();
        let mut i: usize = 0;
        while i < self.metrics.len()
            invariant
                i <= self.metrics.len(),
                keep.len() == i,
                forall|j: int|
                    0 <= j < i ==> (#[trigger] keep@[j]) == allowed@.contains(self@[j].metric_type),
            decreases self.metrics.len() - i,
        {
            keep.push(type_allowed(allowed, self.metrics[i].metric_type));
            i += 1;
        }
        self.keep_where(
            &keep,
            Ghost(|m: MetricModel<C::Model>| allowed@.contains(m.metric_type)),
        )
    }

    /// The metrics of one of the given categories; a metric without category
    /// counts as uncategorized.
    pub fn filter_by_categories(self, allowed: &[MetricCategory]) -> (r: Self)
        ensures
            r@ == kept_metrics(
                self@,
                |m: MetricModel<C::Model>| allowed@.contains(filter_category(m)),
            ),
    {
        let mut keep: Vec<bool> = Vec::new();
        let mut i: usize = 0;
        while i < self.metrics.len()
            invariant
                i <= self.metrics.len(),
                keep.len() == i,
                forall|j: int|
                    0 <= j < i ==> (#[trigger] keep@[j]) == allowed@.contains(
                        filter_category(self@[j]),
                    ),
            decreases self.metrics.len() - i,
        {
            let category = match self.metrics[i].metric_category {
                Some(c) => c,
                None => MetricCategory::Uncategorized,
            };
            keep.push(category_allowed(allowed, category));
            i += 1;
        }
        self.keep_where(
            &keep,
            Ghost(|m: MetricModel<C::Model>| allowed@.contains(filter_category(m))),
        )
    }

    /// The metrics of one of the given categories, and those without category;
    /// nothing where no category is given.
    pub fn categories_shown(self, categories: &[MetricCategory]) -> (r: Self)
        ensures
            r@ == kept_metrics(
                self@,
                |m: MetricModel<C::Model>| shown_under(m, categories@),
            ),
    {
        let mut keep: Vec<bool> = Vec::new();
        let mut i: usize = 0;
        while i < self.metrics.len()
            invariant
                i <= self.metrics.len(),
                keep.len() == i,
                forall|j: int|
                    0 <= j < i ==> (#[trigger] keep@[j]) == shown_under(self@[j], categories@),
            decreases self.metrics.len() - i,
        {
            keep.push(
                match self.metrics[i].metric_category {
                    Some(c) => category_allowed(categories, c),
                    None => categories.len() > 0,
                },
            );
            i += 1;
        }
        self.keep_where(
            &keep,
            Ghost(|m: MetricModel<C::Model>| shown_under(m, categories@)),
        )
    }

    /// The text of the metrics.
    pub fn to_string(&self) -> (r: String)
        requires
            all_displayable(self@),
        ensures
            r@ == metrics_text::<C>(self@),
    {
        let mut parts: Vec<String> = Vec::new();
        let mut i: usize = 0;
        while i < self.metrics.len()
            invariant
                all_displayable(self@),
                i <= self.metrics.len(),
                parts.len() == i,
                forall|j: int| 0 <= j < i ==> (#[trigger] parts@[j])@ == metric_text::<C>(self@[j]),
            decreases self.metrics.len() - i,
        {
            assert(value::displayable(self@[i as int].value));
            parts.push(self.metrics[i].to_string());
            i += 1;
        }
        assert(text::views(parts@) == Seq::new(
            self@.len(),
            |i: int| metric_text::<C>(self@[i]),
        ));
        text::joined(&parts, ", ")
    }
}

proof fn position_has_name<M>(metrics: Seq<MetricModel<M>>, name: Seq<char>)
    ensures
        match position_of_name(metrics, name) {
            Some(i) => 0 <= i < metrics.len() && value::measure_name(metrics[i].value) == name,
            None => forall|i: int|
                0 <= i < metrics.len() ==> value::measure_name((#[trigger] metrics[i]).value)
                    != name,
        },
    decreases metrics.len(),
{
    if metrics.len() > 0 && value::measure_name(metrics.last().value) != name {
        position_has_name(metrics.drop_last(), name);
        assert forall|i: int|
            position_of_name(metrics, name) is None && 0 <= i
                < metrics.len() implies value::measure_name((#[trigger] metrics[i]).value)
            != name by {
            if i < metrics.len() - 1 {
                assert(metrics.drop_last()[i] == metrics[i]);
            }
        }
    }
}

/// A metric of the set of names is of the kind of every metric of its name that
/// went into it.
proof fn by_name_kinds<C: CustomMetricValue>(
    metrics: Seq<MetricModel<C::Model>>,
    n: int,
    k: int,
    j: int,
)
    requires
        names_agree(metrics),
        0 <= n <= metrics.len(),
        0 <= k < by_name::<C>(metrics.take(n)).len(),
        0 <= j < metrics.len(),
        value::measure_name(by_name::<C>(metrics.take(n))[k].value) == value::measure_name(
            metrics[j].value,
        ),
    ensures
        value::same_kind(by_name::<C>(metrics.take(n))[k].value, metrics[j].value),
    decreases n,
{
    if n > 0 {
        let before = by_name::<C>(metrics.take(n - 1));
        let last = metrics[n - 1];
        assert(metrics.take(n).drop_last() == metrics.take(n - 1));
        assert(metrics.take(n).last() == last);
        position_has_name(before, value::measure_name(last.value));
        match position_of_name(before, value::measure_name(last.value)) {
            Some(i) => {
                by_name_kinds::<C>(metrics, n - 1, i, n - 1);
                value::aggregation_keeps_kind::<C>(before[i].value, last.value);
                by_name_kinds::<C>(metrics, n - 1, k, j);
            },
            None => {
                value::aggregation_keeps_kind::<C>(last.value, last.value);
                value::aggregation_keeps_kind::<C>(value::emptied::<C>(last.value), last.value);
                if k == before.len() {
                    assert(value::same_kind(metrics[n - 1].value, metrics[j].value));
                } else {
                    by_name_kinds::<C>(metrics, n - 1, k, j);
                }
            },
        }
    }
}

/// Of two metrics at most one is shown before the other, and the order is
/// transitive both ways.
pub proof fn shown_before_is_an_order<M>(a: Measure<M>, b: Measure<M>, c: Measure<M>)
    ensures
        !(shown_before(a, b) && shown_before(b, a)),
        shown_before(a, b) && shown_before(b, c) ==> shown_before(a, c),
        !shown_before(b, a) && !shown_before(c, b) ==> !shown_before(c, a),
{
    let (x, y, z) = (value::measure_name(a), value::measure_name(b), value::measure_name(c));
    text::text_less_total(x, y);
    text::text_less_total(y, z);
    text::text_less_total(x, z);
    if text::text_less(x, y) && text::text_less(y, z) {
        text::text_less_transitive(x, y, z);
    }
    if text::text_less(z, x) && text::text_less(x, y) {
        text::text_less_transitive(z, x, y);
    }
    if text::text_less(y, z) && text::text_less(z, x) {
        text::text_less_transitive(y, z, x);
    }
}

/// Whether no metric is shown before one that precedes it.
pub open spec fn in_display_order<M>(metrics: Seq<MetricModel<M>>) -> bool {
    forall|i: int, j: int|
        0 <= i < j < metrics.len() ==> !shown_before(
            (#[trigger] metrics[j]).value,
            (#[trigger] metrics[i]).value,
        )
}

proof fn inserted_members<M>(sorted: Seq<MetricModel<M>>, m: MetricModel<M>)
    ensures
        inserted(sorted, m).len() == sorted.len() + 1,
        inserted(sorted, m).to_multiset() == sorted.to_multiset().insert(m),
        forall|i: int|
            0 <= i < inserted(sorted, m).len() ==> (#[trigger] inserted(sorted, m)[i]) == m
                || sorted.contains(inserted(sorted, m)[i]),
    decreases sorted.len(),
{
    broadcast use vstd::seq_lib::group_to_multiset_ensures;

    let all = inserted(sorted, m);
    if sorted.len() > 0 && shown_before(m.value, sorted.last().value) {
        let shorter = sorted.drop_last();
        inserted_members(shorter, m);
        assert(sorted == shorter.push(sorted.last()));
        assert(sorted.to_multiset() == shorter.to_multiset().insert(sorted.last()));
        assert(all.to_multiset() == inserted(shorter, m).to_multiset().insert(sorted.last()));
        assert(all.to_multiset() =~= sorted.to_multiset().insert(m));
        assert forall|i: int| 0 <= i < all.len() implies (#[trigger] all[i]) == m
            || sorted.contains(all[i]) by {
            if i == all.len() - 1 {
                assert(sorted[sorted.len() - 1] == all[i]);
            } else {
                assert(all[i] == inserted(shorter, m)[i]);
                if all[i] != m {
                    let k = choose|k: int| 0 <= k < shorter.len() && shorter[k] == all[i];
                    assert(sorted[k] == all[i]);
                }
            }
        }
    } else {
        assert forall|i: int| 0 <= i < all.len() implies (#[trigger] all[i]) == m
            || sorted.contains(all[i]) by {
            if i < sorted.len() {
                assert(sorted[i] == all[i]);
            }
        }
    }
}

proof fn inserted_in_order<M>(sorted: Seq<MetricModel<M>>, m: MetricModel<M>)
    requires
        in_display_order(sorted),
    ensures
        in_display_order(inserted(sorted, m)),
    decreases sorted.len(),
{
    let all = inserted(sorted, m);
    if sorted.len() > 0 && shown_before(m.value, sorted.last().value) {
        let shorter = sorted.drop_last();
        inserted_in_order(shorter, m);
        inserted_members(shorter, m);
        let head = inserted(shorter, m);
        assert forall|i: int, j: int| 0 <= i < j < all.len() implies !shown_before(
            (#[trigger] all[j]).value,
            (#[trigger] all[i]).value,
        ) by {
            if j < all.len() - 1 {
                assert(all[i] == head[i] && all[j] == head[j]);
            } else {
                assert(all[i] == head[i]);
                if head[i] == m {
                    shown_before_is_an_order(m.value, sorted.last().value, m.value);
                } else {
                    let k = choose|k: int| 0 <= k < shorter.len() && shorter[k] == head[i];
                    assert(sorted[k] == head[i]);
                }
            }
        }
    } else {
        assert forall|i: int, j: int| 0 <= i < j < all.len() implies !shown_before(
            (#[trigger] all[j]).value,
            (#[trigger] all[i]).value,
        ) by {
            if j < sorted.len() {
                assert(all[i] == sorted[i] && all[j] == sorted[j]);
            } else {
                assert(all[i] == sorted[i]);
                let last = sorted[sorted.len() - 1];
                if i < sorted.len() - 1 {
                    assert(!shown_before(last.value, sorted[i].value));
                    shown_before_is_an_order(sorted[i].value, last.value, m.value);
                }
            }
        }
    }
}

/// Sorting for display loses no metric, adds none, and leaves none shown before
/// one that precedes it.
pub proof fn display_sorted_is_sorted<M>(metrics: Seq<MetricModel<M>>)
    ensures
        in_display_order(display_sorted(metrics)),
        display_sorted(metrics).to_multiset() == metrics.to_multiset(),
        display_sorted(metrics).len() == metrics.len(),
    decreases metrics.len(),
{
    broadcast use vstd::seq_lib::group_to_multiset_ensures;

    if metrics.len() > 0 {
        let shorter = metrics.drop_last();
        display_sorted_is_sorted(shorter);
        inserted_in_order(display_sorted(shorter), metrics.last());
        inserted_members(display_sorted(shorter), metrics.last());
        assert(metrics == shorter.push(metrics.last()));
    } else {
        assert(metrics == Seq::<MetricModel<M>>::empty());
        assert(display_sorted(metrics) == metrics);
    }
}

/// Whether two metrics have the same place when metrics are shown.
pub open spec fn same_place<M>(a: Measure<M>, b: Measure<M>) -> bool {
    !shown_before(a, b) && !shown_before(b, a)
}

proof fn inserted_is_stable<M>(
    sorted: Seq<MetricModel<M>>,
    m: MetricModel<M>,
    x: MetricModel<M>,
)
    ensures
        kept_metrics(inserted(sorted, m), |y: MetricModel<M>| same_place(y.value, x.value))
            == kept_metrics(
            sorted.push(m),
            |y: MetricModel<M>| same_place(y.value, x.value),
        ),
    decreases sorted.len(),
{
    reveal_with_fuel(kept_metrics, 3);
    let p = |y: MetricModel<M>| same_place(y.value, x.value);
    if sorted.len() > 0 && shown_before(m.value, sorted.last().value) {
        let shorter = sorted.drop_last();
        let last = sorted.last();
        inserted_is_stable(shorter, m, x);
        assert(inserted(sorted, m).drop_last() == inserted(shorter, m));
        assert(shorter.push(m).drop_last() == shorter);
        assert(sorted.push(m).drop_last() == sorted);
        shown_before_is_an_order(m.value, x.value, last.value);
        shown_before_is_an_order(last.value, x.value, m.value);
        assert(!(p(m) && p(last)));
    }
}

/// Sorting for display keeps the order of metrics that have the same place.
pub proof fn display_sorted_is_stable<M>(metrics: Seq<MetricModel<M>>, x: MetricModel<M>)
    ensures
        kept_metrics(
            display_sorted(metrics),
            |y: MetricModel<M>| same_place(y.value, x.value),
        ) == kept_metrics(metrics, |y: MetricModel<M>| same_place(y.value, x.value)),
    decreases metrics.len(),
{
    if metrics.len() > 0 {
        let shorter = metrics.drop_last();
        let sorted = display_sorted(shorter);
        display_sorted_is_stable(shorter, x);
        inserted_is_stable(sorted, metrics.last(), x);
        assert(sorted.push(metrics.last()).drop_last() == sorted);
    }
}

/// Whether no two metrics have the same name.
pub open spec fn distinct_names<M>(metrics: Seq<MetricModel<M>>) -> bool {
    forall|i: int, j: int|
        0 <= i < j < metrics.len() ==> value::measure_name((#[trigger] metrics[i]).value)
            != value::measure_name((#[trigger] metrics[j]).value)
}

/// Taken together by name, there is one metric per name.
pub proof fn by_name_has_distinct_names<C: CustomMetricValue>(
    metrics: Seq<MetricModel<C::Model>>,
)
    requires
        names_agree(metrics),
    ensures
        distinct_names(by_name::<C>(metrics)),
    decreases metrics.len(),
{
    if metrics.len() > 0 {
        let shorter = metrics.drop_last();
        let before = by_name::<C>(shorter);
        let last = metrics.last();
        assert(names_agree(shorter)) by {
            assert forall|i: int, j: int|
                0 <= i < shorter.len() && 0 <= j < shorter.len() && value::measure_name(
                    (#[trigger] shorter[i]).value,
                ) == value::measure_name((#[trigger] shorter[j]).value) implies value::same_kind(
                shorter[i].value,
                shorter[j].value,
            ) by {
                assert(metrics[i] == shorter[i] && metrics[j] == shorter[j]);
            }
        }
        by_name_has_distinct_names::<C>(shorter);
        position_has_name(before, value::measure_name(last.value));
        match position_of_name(before, value::measure_name(last.value)) {
            Some(i) => {
                assert(metrics.take(metrics.len() - 1) == shorter);
                by_name_kinds::<C>(metrics, metrics.len() - 1, i, metrics.len() - 1);
                value::aggregation_keeps_kind::<C>(before[i].value, last.value);
            },
            None => {
                value::aggregation_keeps_kind::<C>(last.value, last.value);
                value::aggregation_keeps_kind::<C>(value::emptied::<C>(last.value), last.value);
            },
        }
    }
}

} // verus!
