//! Column types, fields and schemas.
use vstd::prelude::*;
use crate::text::{owned, push_decimal, push_joined, quoted, same_text};
use crate::text;

verus! {

/// The type of a column.
#[derive(Clone, Copy, Debug, PartialEq, Eq, Structural)]
pub enum DataType {
    Null,
    Boolean,
    Int8,
    Int16,
    Int32,
    Int64,
    UInt8,
    UInt16,
    UInt32,
    UInt64,
    Float32,
    Float64,
    Utf8,
    Binary,
    Date32,
    /// A type whose values are passed on without being looked into, by the number
    /// under which the caller knows it.
    Other(u32),
}

impl DataType {
    /// The name of the type.
    pub open spec fn spec_name(self) -> Seq<char> {
        match self {
            DataType::Null => "Null"@,
            DataType::Boolean => "Boolean"@,
            DataType::Int8 => "Int8"@,
            DataType::Int16 => "Int16"@,
            DataType::Int32 => "Int32"@,
            DataType::Int64 => "Int64"@,
            DataType::UInt8 => "UInt8"@,
            DataType::UInt16 => "UInt16"@,
            DataType::UInt32 => "UInt32"@,
            DataType::UInt64 => "UInt64"@,
            DataType::Float32 => "Float32"@,
            DataType::Float64 => "Float64"@,
            DataType::Utf8 => "Utf8"@,
            DataType::Binary => "Binary"@,
            DataType::Date32 => "Date32"@,
            DataType::Other(n) => "Other("@ + text::decimal(n as nat) + ")"@,
        }
    }

    /// The name of the type.
    pub fn name(&self) -> (r: String)
        ensures
            r@ == self.spec_name(),
    {
        let name: &'static str = match self {
            DataType::Other(n) => {
                let mut out: String = owned("Other(");
                push_decimal(&mut out, *n as u128);
                out.append(")");
                return out;
            },
            DataType::Null => "Null",
            DataType::Boolean => "Boolean",
            DataType::Int8 => "Int8",
            DataType::Int16 => "Int16",
            DataType::Int32 => "Int32",
            DataType::Int64 => "Int64",
            DataType::UInt8 => "UInt8",
            DataType::UInt16 => "UInt16",
            DataType::UInt32 => "UInt32",
            DataType::UInt64 => "UInt64",
            DataType::Float32 => "Float32",
            DataType::Float64 => "Float64",
            DataType::Utf8 => "Utf8",
            DataType::Binary => "Binary",
            DataType::Date32 => "Date32",
        };
        owned(name)
    }
}

/// One column of a schema.
#[derive(Debug)]
pub struct Field {
    pub name: String,
    pub data_type: DataType,
    pub nullable: bool,
}

/// The mathematical value of a field.
pub struct FieldModel {
    pub name: Seq<char>,
    pub data_type: DataType,
    pub nullable: bool,
}

impl View for Field {
    type V = FieldModel;

    open spec fn view(&self) -> FieldModel {
        FieldModel { name: self.name@, data_type: self.data_type, nullable: self.nullable }
    }
}

impl Clone for Field {
    fn clone(&self) -> (r: Self)
        ensures
            r@ == self@,
    {
        Field { name: self.name.clone(), data_type: self.data_type, nullable: self.nullable }
    }
}

impl PartialEq for Field {
    fn eq(&self, other: &Self) -> (r: bool) {
        same_text(&self.name, &other.name) && self.data_type == other.data_type && self.nullable
            == other.nullable
    }
}

impl vstd::std_specs::cmp::PartialEqSpecImpl for Field {
    open spec fn obeys_eq_spec() -> bool {
        true
    }

    open spec fn eq_spec(&self, other: &Self) -> bool {
        self@ == other@
    }
}

impl Field {
    /// A field with the given name, type and nullability.
    pub fn new(name: &str, data_type: DataType, nullable: bool) -> (r: Field)
        ensures
            r@ == (FieldModel { name: name@, data_type, nullable }),
    {
        Field { name: owned(name), data_type, nullable }
    }
}

/// The columns of a table, in order.
#[derive(Debug)]
pub struct Schema {
    pub fields: Vec<Field>,
}

impl View for Schema {
    type V = Seq<FieldModel>;

    open spec fn view(&self) -> Seq<FieldModel> {
        Seq::new(self.fields@.len(), |i: int| self.fields@[i]@)
    }
}

impl Clone for Schema {
    fn clone(&self) -> (r: Self)
        ensures
            r@ == self@,
    {
        let mut fields: Vec<Field> = Vec::new();
        let mut i: usize = 0;
        while i < self.fields.len()
            invariant
                i <= self.fields.len(),
                fields.len() == i,
                forall|j: int| 0 <= j < i ==> (#[trigger] fields@[j])@ == self.fields@[j]@,
            decreases self.fields.len() - i,
        {
            fields.push(self.fields[i].clone());
            i += 1;
        }
        let r = Schema { fields };
        assert(r@ == self@);
        r
    }
}

/// The position of the first field with the given name.
pub open spec fn field_position(schema: Seq<FieldModel>, name: Seq<char>) -> Option<int>
    decreases schema.len(),
{
    if schema.len() == 0 {
        None
    } else if schema[0].name == name {
        Some(0)
    } else {
        match field_position(schema.drop_first(), name) {
            Some(i) => Some(i + 1),
            None => None,
        }
    }
}

impl Schema {
    /// A schema of the given fields.
    pub fn new(fields: Vec<Field>) -> (r: Schema)
        ensures
            r@ == Seq::new(fields@.len(), |i: int| fields@[i]@),
    {
        Schema { fields }
    }

    /// How many columns there are.
    pub fn len(&self) -> (r: usize)
        ensures
            r == self@.len(),
    {
        self.fields.len()
    }

    /// The position of the first field called `name`.
    pub fn index_of(&self, name: &str) -> (r: Option<usize>)
        ensures
            match r {
                Some(i) => field_position(self@, name@) == Some(i as int) && i < self@.len(),
                None => field_position(self@, name@) is None,
            },
    {
        let wanted = owned(name);
        let mut i: usize = 0;
        assert(self@.skip(0) == self@);
        while i < self.fields.len()
            invariant
                i <= self.fields.len(),
                wanted@ == name@,
                field_position(self@, name@) == match field_position(self@.skip(i as int), name@) {
                    Some(j) => Some(j + i),
                    None => None::<int>,
                },
            decreases self.fields.len() - i,
        {
            if same_text(&self.fields[i].name, &wanted) {
                assert(self@.skip(i as int)[0].name == name@);
                return Some(i);
            }
            assert(self@.skip(i as int).drop_first() == self@.skip(i + 1));
            i += 1;
        }
        assert(self@.skip(i as int).len() == 0);
        None
    }
}

/// The full text of a field. A field called `item` is shown without its name,
/// and only a nullable field says so.
pub open spec fn field_debug(field: FieldModel) -> Seq<char> {
    "Field { "@ + (if field.name == "item"@ {
        seq![]
    } else {
        "name: "@ + text::quoted_text(field.name) + ", "@
    }) + "data_type: "@ + field.data_type.spec_name() + (if field.nullable {
        ", nullable: true"@
    } else {
        seq![]
    }) + " }"@
}

/// The full text of a schema.
pub open spec fn schema_debug(schema: Seq<FieldModel>) -> Seq<char> {
    "Schema { fields: ["@ + text::join(
        Seq::new(schema.len(), |i: int| field_debug(schema[i])),
        ", "@,
    ) + "], metadata: {} }"@
}

impl Field {
    /// The full text of the field.
    pub fn debug_string(&self) -> (r: String)
        ensures
            r@ == field_debug(self@),
    {
        let mut out: String = owned("Field { ");
        let unnamed: String = owned("item");
        if !same_text(&self.name, &unnamed) {
            out.append("name: ");
            out.append(quoted(self.name.as_str()).as_str());
            out.append(", ");
        }
        out.append("data_type: ");
        out.append(self.data_type.name().as_str());
        if self.nullable {
            out.append(", nullable: true");
        }
        out.append(" }");
        assert(out@ == field_debug(self@));
        out
    }
}

impl Schema {
    /// The full text of the schema.
    pub fn debug_string(&self) -> (r: String)
        ensures
            r@ == schema_debug(self@),
    {
        let mut parts: Vec<String> = Vec::new();
        let mut i: usize = 0;
        while i < self.fields.len()
            invariant
                i <= self.fields.len(),
                parts.len() == i,
                forall|j: int| 0 <= j < i ==> (#[trigger] parts@[j])@ == field_debug(self@[j]),
            decreases self.fields.len() - i,
        {
            parts.push(self.fields[i].debug_string());
            i += 1;
        }
        assert(text::views(parts@) == Seq::new(self@.len(), |i: int| field_debug(self@[i])));
        let mut out: String = owned("Schema { fields: [");
        push_joined(&mut out, &parts, ", ");
        out.append("], metadata: {} }");
        out
    }
}

} // verus!
