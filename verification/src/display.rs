//! How plans and operators are shown as text.
use vstd::prelude::*;
use crate::schema::{FieldModel, Schema};
use crate::text::{owned, push_joined};
use crate::text;

verus! {

/// The style in which a plan is shown.
#[derive(Clone, Copy, Debug, PartialEq, Eq, Structural)]
pub enum DisplayFormatType {
    /// One compact line per operator.
    Default,
    /// One line per operator with everything there is to say.
    Verbose,
    /// One detail per line, for the boxes of a rendered tree.
    TreeRender,
}

/// What can be shown in each of the styles.
pub trait DisplayAs {
    /// Whether there is a text to show.
    spec fn displayable(&self) -> bool;

    /// The text in a style.
    spec fn rendered(&self, t: DisplayFormatType) -> Seq<char>;

    /// The text in a style.
    fn fmt_as(&self, t: DisplayFormatType) -> (r: String)
        requires
            self.displayable(),
        ensures
            r@ == self.rendered(t),
    ;
}

/// Shows its content in the default style.
#[derive(Debug)]
pub struct DefaultDisplay<T>(pub T);

impl<T: DisplayAs> DefaultDisplay<T> {
    /// The text in the default style.
    pub fn to_string(&self) -> (r: String)
        requires
            self.0.displayable(),
        ensures
            r@ == self.0.rendered(DisplayFormatType::Default),
    {
        self.0.fmt_as(DisplayFormatType::Default)
    }
}

/// Shows its content in the verbose style.
#[derive(Debug)]
pub struct VerboseDisplay<T>(pub T);

impl<T: DisplayAs> VerboseDisplay<T> {
    /// The text in the verbose style.
    pub fn to_string(&self) -> (r: String)
        requires
            self.0.displayable(),
        ensures
            r@ == self.0.rendered(DisplayFormatType::Verbose),
    {
        self.0.fmt_as(DisplayFormatType::Verbose)
    }
}

/// The names of the columns of a schema, in brackets.
pub open spec fn schema_text(schema: Seq<FieldModel>) -> Seq<char> {
    "["@ + text::join(Seq::new(schema.len(), |i: int| schema[i].name), ", "@) + "]"@
}

/// Shows the names of the columns of a schema.
#[derive(Debug)]
pub struct ProjectSchemaDisplay<'a>(pub &'a Schema);

impl<'a> ProjectSchemaDisplay<'a> {
    /// The names of the columns, in brackets.
    pub fn to_string(&self) -> (r: String)
        ensures
            r@ == schema_text(self.0@),
    {
        let mut names: Vec<String> = Vec::new();
        let mut i: usize = 0;
        while i < self.0.fields.len()
            invariant
                i <= self.0.fields.len(),
                names.len() == i,
                forall|j: int| 0 <= j < i ==> (#[trigger] names@[j])@ == self.0@[j].name,
            decreases self.0.fields.len() - i,
        {
            names.push(self.0.fields[i].name.clone());
            i += 1;
        }
        assert(text::views(names@) == Seq::new(self.0@.len(), |i: int| self.0@[i].name));
        let mut out: String = owned("[");
        push_joined(&mut out, &names, ", ");
        out.append("]");
        out
    }
}

/// Orderings, each in brackets, one after the other.
pub open spec fn bracketed(orderings: Seq<Seq<char>>) -> Seq<Seq<char>> {
    Seq::new(orderings.len(), |i: int| "["@ + orderings[i] + "]"@)
}

/// The orderings of an output: none, one, or a list in brackets.
pub open spec fn orderings_text(orderings: Seq<Seq<char>>) -> Seq<char> {
    if orderings.len() == 0 {
        seq![]
    } else if orderings.len() == 1 {
        ", output_ordering="@ + text::join(bracketed(orderings), ", "@)
    } else {
        ", output_orderings=["@ + text::join(bracketed(orderings), ", "@) + "]"@
    }
}

/// The orderings of an output, given by their texts.
pub fn display_orderings(orderings: &Vec<String>) -> (r: String)
    ensures
        r@ == orderings_text(text::views(orderings@)),
{
    let mut out: String = String::new();
    if !orderings.is_empty() {
        let mut parts: Vec<String> = Vec::new();
        let mut i: usize = 0;
        while i < orderings.len()
            invariant
                i <= orderings.len(),
                parts.len() == i,
                forall|j: int|
                    0 <= j < i ==> (#[trigger] parts@[j])@ == "["@ + orderings@[j]@ + "]"@,
            decreases orderings.len() - i,
        {
            let mut part: String = owned("[");
            part.append(orderings[i].as_str());
            part.append("]");
            parts.push(part);
            i += 1;
        }
        assert(text::views(parts@) == bracketed(text::views(orderings@)));
        if orderings.len() == 1 {
            out.append(", output_ordering=");
            push_joined(&mut out, &parts, ", ");
        } else {
            out.append(", output_orderings=[");
            push_joined(&mut out, &parts, ", ");
            out.append("]");
        }
    }
    assert(out@ == orderings_text(text::views(orderings@)));
    out
}

} // verus!
