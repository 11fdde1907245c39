//! Operators defined elsewhere.
use vstd::prelude::*;
use std::sync::Arc;
use crate::display::{DisplayAs, DisplayFormatType};
use crate::error::{Fault, FdapQueryError};
use crate::metrics::metrics_set::MetricsSet;
use crate::metrics::value::NoCustomMetric;
use crate::plan::ExecutionPlan;
use crate::plan_properties::PlanProperties;
use crate::schema::Schema;
use crate::text::{owned, push_decimal};
use crate::text;

verus! {

/// How an operator defined elsewhere is shown, in each style.
#[derive(Debug)]
pub struct Labels {
    pub default: String,
    pub verbose: String,
    pub tree: String,
}

/// An operator defined elsewhere: all that a plan needs to know of it.
#[derive(Debug)]
pub struct ExtensionExec {
    pub name: String,
    pub labels: Labels,
    pub schema: Schema,
    pub properties: PlanProperties,
    pub children: Vec<Arc<ExecutionPlan>>,
    pub metrics: Option<MetricsSet<NoCustomMetric>>,
}

impl ExtensionExec {
    /// An operator with one output partition, no children and no metrics that
    /// is shown the same way in every style.
    pub fn leaf(name: &str, label: &str, schema: Schema) -> (r: Self)
        ensures
            r.name@ == name@,
            r.labels.default@ == label@,
            r.labels.verbose@ == label@,
            r.labels.tree@ == label@,
            r.schema == schema,
            r.children@.len() == 0,
            r.metrics is None,
    {
        ExtensionExec {
            name: owned(name),
            labels: Labels { default: owned(label), verbose: owned(label), tree: owned(label) },
            schema,
            properties: PlanProperties::single_partition_unknown(),
            children: Vec::new(),
            metrics: None,
        }
    }

    /// The same operator over other children, as many as it has.
    pub fn with_new_children(self, children: Vec<Arc<ExecutionPlan>>) -> (r: Result<
        Self,
        FdapQueryError,
    >)
        ensures
            match r {
                Ok(rebuilt) => children@.len() == self.children@.len() && rebuilt == (
                ExtensionExec { children, ..self }),
                Err(e) => children@.len() != self.children@.len() && e@ == Fault::Internal(
                    self.name@ + "::with_new_children expected "@ + text::decimal(
                        self.children@.len(),
                    ) + " children, got "@ + text::decimal(children@.len()),
                ),
            },
    {
        if children.len() != self.children.len() {
            let mut m: String = self.name;
            m.append("::with_new_children expected ");
            push_decimal(&mut m, self.children.len() as u128);
            m.append(" children, got ");
            push_decimal(&mut m, children.len() as u128);
            return Err(FdapQueryError::Internal(m));
        }
        let mut r = self;
        r.children = children;
        Ok(r)
    }
}

impl DisplayAs for ExtensionExec {
    open spec fn displayable(&self) -> bool {
        true
    }

    open spec fn rendered(&self, t: DisplayFormatType) -> Seq<char> {
        match t {
            DisplayFormatType::Default => self.labels.default@,
            DisplayFormatType::Verbose => self.labels.verbose@,
            DisplayFormatType::TreeRender => self.labels.tree@,
        }
    }

    fn fmt_as(&self, t: DisplayFormatType) -> (r: String) {
        match t {
            DisplayFormatType::Default => self.labels.default.clone(),
            DisplayFormatType::Verbose => self.labels.verbose.clone(),
            DisplayFormatType::TreeRender => self.labels.tree.clone(),
        }
    }
}

} // verus!
