//! The names that messages give to operators and types.
use vstd::prelude::*;
use crate::expr::Operator;
use crate::proto::messages::{ArrowType, FieldMessageModel};
use crate::schema::{DataType, FieldModel};
use crate::text::{owned, same_text};

verus! {

/// The name of an operator in a message.
pub open spec fn operator_name(op: Operator) -> Seq<char> {
    match op {
        Operator::Eq => "eq"@,
        Operator::NotEq => "neq"@,
        Operator::Lt => "lt"@,
        Operator::LtEq => "lteq"@,
        Operator::Gt => "gt"@,
        Operator::GtEq => "gteq"@,
        Operator::And => "and"@,
        Operator::Or => "or"@,
        Operator::Plus => "add"@,
        Operator::Minus => "subtract"@,
        Operator::Multiply => "multiply"@,
        Operator::Divide => "divide"@,
        Operator::Modulo => "modulus"@,
    }
}

/// The operator that a message names.
pub open spec fn named_operator(name: Seq<char>) -> Option<Operator> {
    if name == "eq"@ {
        Some(Operator::Eq)
    } else if name == "neq"@ {
        Some(Operator::NotEq)
    } else if name == "lt"@ {
        Some(Operator::Lt)
    } else if name == "lteq"@ {
        Some(Operator::LtEq)
    } else if name == "gt"@ {
        Some(Operator::Gt)
    } else if name == "gteq"@ {
        Some(Operator::GtEq)
    } else if name == "and"@ {
        Some(Operator::And)
    } else if name == "or"@ {
        Some(Operator::Or)
    } else if name == "add"@ {
        Some(Operator::Plus)
    } else if name == "subtract"@ {
        Some(Operator::Minus)
    } else if name == "multiply"@ {
        Some(Operator::Multiply)
    } else if name == "divide"@ {
        Some(Operator::Divide)
    } else if name == "modulus"@ {
        Some(Operator::Modulo)
    } else {
        None
    }
}

/// The name of an operator is that of no other.
pub proof fn operator_names_read_back(op: Operator)
    ensures
        named_operator(operator_name(op)) == Some(op),
{
    reveal_strlit("eq");
    reveal_strlit("neq");
    reveal_strlit("lt");
    reveal_strlit("lteq");
    reveal_strlit("gt");
    reveal_strlit("gteq");
    reveal_strlit("and");
    reveal_strlit("or");
    reveal_strlit("add");
    reveal_strlit("subtract");
    reveal_strlit("multiply");
    reveal_strlit("divide");
    reveal_strlit("modulus");
    assert("eq"@.len() == 2 && "lt"@.len() == 2 && "gt"@.len() == 2 && "or"@.len() == 2);
    assert("neq"@.len() == 3 && "and"@.len() == 3 && "add"@.len() == 3);
    assert("lteq"@.len() == 4 && "gteq"@.len() == 4);
    assert("divide"@.len() == 6 && "modulus"@.len() == 7);
    assert("subtract"@.len() == 8 && "multiply"@.len() == 8);
    assert("lt"@[0] != "eq"@[0]);
    assert("gt"@[0] != "eq"@[0] && "gt"@[0] != "lt"@[0]);
    assert("or"@[0] != "eq"@[0] && "or"@[0] != "lt"@[0] && "or"@[0] != "gt"@[0]);
    assert("and"@[0] != "neq"@[0]);
    assert("add"@[0] != "neq"@[0] && "add"@[1] != "and"@[1]);
    assert("gteq"@[0] != "lteq"@[0]);
    assert("multiply"@[0] != "subtract"@[0]);
}

/// The name of an operator in a message.
pub fn operator_wire_name(op: Operator) -> (r: &'static str)
    ensures
        r@ == operator_name(op),
{
    match op {
        Operator::Eq => "eq",
        Operator::NotEq => "neq",
        Operator::Lt => "lt",
        Operator::LtEq => "lteq",
        Operator::Gt => "gt",
        Operator::GtEq => "gteq",
        Operator::And => "and",
        Operator::Or => "or",
        Operator::Plus => "add",
        Operator::Minus => "subtract",
        Operator::Multiply => "multiply",
        Operator::Divide => "divide",
        Operator::Modulo => "modulus",
    }
}

fn is_named(name: &String, wanted: &str) -> (r: bool)
    ensures
        r == (name@ == wanted@),
{
    let wanted: String = owned(wanted);
    same_text(name, &wanted)
}

/// The operator that a message names.
pub fn operator_from_wire(name: &String) -> (r: Option<Operator>)
    ensures
        r == named_operator(name@),
{
    if is_named(name, "eq") {
        Some(Operator::Eq)
    } else if is_named(name, "neq") {
        Some(Operator::NotEq)
    } else if is_named(name, "lt") {
        Some(Operator::Lt)
    } else if is_named(name, "lteq") {
        Some(Operator::LtEq)
    } else if is_named(name, "gt") {
        Some(Operator::Gt)
    } else if is_named(name, "gteq") {
        Some(Operator::GtEq)
    } else if is_named(name, "and") {
        Some(Operator::And)
    } else if is_named(name, "or") {
        Some(Operator::Or)
    } else if is_named(name, "add") {
        Some(Operator::Plus)
    } else if is_named(name, "subtract") {
        Some(Operator::Minus)
    } else if is_named(name, "multiply") {
        Some(Operator::Multiply)
    } else if is_named(name, "divide") {
        Some(Operator::Divide)
    } else if is_named(name, "modulus") {
        Some(Operator::Modulo)
    } else {
        None
    }
}

/// The type that a message gives to a column, if it has one for it.
pub open spec fn message_type(data_type: DataType) -> Option<ArrowType> {
    match data_type {
        DataType::Boolean => Some(ArrowType::Bool),
        DataType::Int8 => Some(ArrowType::Int8),
        DataType::Int16 => Some(ArrowType::Int16),
        DataType::Int32 => Some(ArrowType::Int32),
        DataType::Int64 => Some(ArrowType::Int64),
        DataType::UInt8 => Some(ArrowType::Uint8),
        DataType::UInt16 => Some(ArrowType::Uint16),
        DataType::UInt32 => Some(ArrowType::Uint32),
        DataType::UInt64 => Some(ArrowType::Uint64),
        DataType::Float32 => Some(ArrowType::Float),
        DataType::Float64 => Some(ArrowType::Double),
        DataType::Utf8 => Some(ArrowType::Utf8),
        DataType::Date32 => Some(ArrowType::Date32),
        _ => None,
    }
}

/// The type of a column that a message gives, if there is one.
pub open spec fn column_type(arrow_type: ArrowType) -> Option<DataType> {
    match arrow_type {
        ArrowType::Bool => Some(DataType::Boolean),
        ArrowType::Int8 => Some(DataType::Int8),
        ArrowType::Int16 => Some(DataType::Int16),
        ArrowType::Int32 => Some(DataType::Int32),
        ArrowType::Int64 => Some(DataType::Int64),
        ArrowType::Uint8 => Some(DataType::UInt8),
        ArrowType::Uint16 => Some(DataType::UInt16),
        ArrowType::Uint32 => Some(DataType::UInt32),
        ArrowType::Uint64 => Some(DataType::UInt64),
        ArrowType::Float => Some(DataType::Float32),
        ArrowType::Double => Some(DataType::Float64),
        ArrowType::Utf8 => Some(DataType::Utf8),
        ArrowType::Date32 => Some(DataType::Date32),
        ArrowType::Other(_) => None,
    }
}

/// A type survives being sent.
pub proof fn types_read_back(data_type: DataType)
    ensures
        message_type(data_type) matches Some(t) ==> column_type(t) == Some(data_type),
{
}

/// The type that a message gives to a column.
pub fn data_type_to_proto(data_type: DataType) -> (r: ArrowType)
    requires
        message_type(data_type) is Some,
    ensures
        message_type(data_type) == Some(r),
{
    match data_type {
        DataType::Boolean => ArrowType::Bool,
        DataType::Int8 => ArrowType::Int8,
        DataType::Int16 => ArrowType::Int16,
        DataType::Int32 => ArrowType::Int32,
        DataType::Int64 => ArrowType::Int64,
        DataType::UInt8 => ArrowType::Uint8,
        DataType::UInt16 => ArrowType::Uint16,
        DataType::UInt32 => ArrowType::Uint32,
        DataType::UInt64 => ArrowType::Uint64,
        DataType::Float32 => ArrowType::Float,
        DataType::Float64 => ArrowType::Double,
        DataType::Utf8 => ArrowType::Utf8,
        _ => ArrowType::Date32,
    }
}

/// The type of a column that a message gives.
pub fn from_proto_arrow_type(arrow_type: ArrowType) -> (r: DataType)
    requires
        column_type(arrow_type) is Some,
    ensures
        column_type(arrow_type) == Some(r),
{
    match arrow_type {
        ArrowType::Bool => DataType::Boolean,
        ArrowType::Int8 => DataType::Int8,
        ArrowType::Int16 => DataType::Int16,
        ArrowType::Int32 => DataType::Int32,
        ArrowType::Int64 => DataType::Int64,
        ArrowType::Uint8 => DataType::UInt8,
        ArrowType::Uint16 => DataType::UInt16,
        ArrowType::Uint32 => DataType::UInt32,
        ArrowType::Uint64 => DataType::UInt64,
        ArrowType::Float => DataType::Float32,
        ArrowType::Double => DataType::Float64,
        ArrowType::Utf8 => DataType::Utf8,
        _ => DataType::Date32,
    }
}

/// Whether every field of a schema has a type in messages.
pub open spec fn sendable_schema(schema: Seq<FieldModel>) -> bool {
    forall|i: int|
        0 <= i < schema.len() ==> message_type((#[trigger] schema[i]).data_type) is Some
}

/// A field as a message: always nullable.
pub open spec fn field_message(field: FieldModel) -> FieldMessageModel {
    FieldMessageModel {
        name: field.name,
        arrow_type: message_type(field.data_type).unwrap(),
        nullable: true,
    }
}

/// A schema as a message.
pub open spec fn schema_message(schema: Seq<FieldModel>) -> Seq<FieldMessageModel> {
    Seq::new(schema.len(), |i: int| field_message(schema[i]))
}

/// Whether every field of a message has a type.
pub open spec fn readable_schema(message: Seq<FieldMessageModel>) -> bool {
    forall|i: int|
        0 <= i < message.len() ==> column_type((#[trigger] message[i]).arrow_type) is Some
}

/// The field that a message gives: always nullable.
pub open spec fn read_field(message: FieldMessageModel) -> FieldModel {
    FieldModel {
        name: message.name,
        data_type: column_type(message.arrow_type).unwrap(),
        nullable: true,
    }
}

/// The schema that a message gives.
pub open spec fn read_schema(message: Seq<FieldMessageModel>) -> Seq<FieldModel> {
    Seq::new(message.len(), |i: int| read_field(message[i]))
}

/// A schema survives being sent but for what it says of nulls: every field comes
/// back nullable.
pub proof fn schemas_read_back(schema: Seq<FieldModel>)
    requires
        sendable_schema(schema),
    ensures
        readable_schema(schema_message(schema)),
        read_schema(schema_message(schema)) == Seq::new(
            schema.len(),
            |i: int| FieldModel { nullable: true, ..schema[i] },
        ),
{
    assert forall|i: int| 0 <= i < schema.len() implies column_type(
        (#[trigger] schema_message(schema)[i]).arrow_type,
    ) == Some(schema[i].data_type) by {
        assert(message_type(schema[i].data_type) is Some);
        types_read_back(schema[i].data_type);
    }
    assert forall|i: int| 0 <= i < schema.len() implies read_schema(schema_message(schema))[i] == (
    FieldModel { nullable: true, ..schema[i] }) by {
        assert(column_type(schema_message(schema)[i].arrow_type) == Some(schema[i].data_type));
    }
    assert(read_schema(schema_message(schema)) == Seq::new(
        schema.len(),
        |i: int| FieldModel { nullable: true, ..schema[i] },
    ));
}

} // verus!
