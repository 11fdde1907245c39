//! Physical expressions and the text they render to.
use vstd::prelude::*;
use chrono::NaiveDate;
use arrow_array::types::{ArrowPrimitiveType, Float32Type, Float64Type};
use crate::scalar::{Scalar, ScalarValue};
use crate::schema::DataType;
use crate::text::{owned, push_decimal, push_decimal_int};
use crate::text;

verus! {

/// A binary operator.
#[derive(Clone, Copy, Debug, PartialEq, Eq, Structural)]
pub enum Operator {
    Eq,
    NotEq,
    Lt,
    LtEq,
    Gt,
    GtEq,
    And,
    Or,
    Plus,
    Minus,
    Multiply,
    Divide,
    Modulo,
}

impl Operator {
    /// The symbol between the operands.
    pub open spec fn spec_symbol(self) -> Seq<char> {
        match self {
            Operator::Eq => "="@,
            Operator::NotEq => "!="@,
            Operator::Lt => "<"@,
            Operator::LtEq => "<="@,
            Operator::Gt => ">"@,
            Operator::GtEq => ">="@,
            Operator::And => "AND"@,
            Operator::Or => "OR"@,
            Operator::Plus => "+"@,
            Operator::Minus => "-"@,
            Operator::Multiply => "*"@,
            Operator::Divide => "/"@,
            Operator::Modulo => "%"@,
        }
    }

    /// The symbol between the operands.
    pub fn symbol(&self) -> (r: &'static str)
        ensures
            r@ == self.spec_symbol(),
    {
        match self {
            Operator::Eq => "=",
            Operator::NotEq => "!=",
            Operator::Lt => "<",
            Operator::LtEq => "<=",
            Operator::Gt => ">",
            Operator::GtEq => ">=",
            Operator::And => "AND",
            Operator::Or => "OR",
            Operator::Plus => "+",
            Operator::Minus => "-",
            Operator::Multiply => "*",
            Operator::Divide => "/",
            Operator::Modulo => "%",
        }
    }
}

/// The shortest decimal text that reads back as the single-precision number
/// with the given bit pattern, as `Display` of the number writes it.
pub uninterp spec fn float32_text(bits: u32) -> Seq<char>;

/// The shortest decimal text that reads back as the double-precision number
/// with the given bit pattern, as `Display` of the number writes it.
pub uninterp spec fn float64_text(bits: u64) -> Seq<char>;

/// The text of a day counted from the first day of the common era, or none
/// when the calendar does not reach that far.
pub uninterp spec fn calendar_day_text(days_from_ce: i32) -> Option<Seq<char>>;

/// `Display` of a single-precision number: its text is a function of the bit
/// pattern alone. What the text looks like is left unsaid.
#[verifier::external_body]
fn float32_to_string(bits: u32) -> (r: String)
    ensures
        r@ == float32_text(bits),
{
    <Float32Type as ArrowPrimitiveType>::Native::from_bits(bits).to_string()
}

/// `Display` of a double-precision number: its text is a function of the bit
/// pattern alone. What the text looks like is left unsaid.
#[verifier::external_body]
fn float64_to_string(bits: u64) -> (r: String)
    ensures
        r@ == float64_text(bits),
{
    <Float64Type as ArrowPrimitiveType>::Native::from_bits(bits).to_string()
}

/// `NaiveDate::from_num_days_from_ce_opt`, then `Display` of the date: the text
/// is a function of the day number alone, and there is none outside the range
/// of the calendar.
#[verifier::external_body]
fn calendar_day_to_string(days_from_ce: i32) -> (r: Option<String>)
    ensures
        r.is_some() == calendar_day_text(days_from_ce).is_some(),
        r.is_some() ==> r.unwrap()@ == calendar_day_text(days_from_ce).unwrap(),
{
    NaiveDate::from_num_days_from_ce_opt(days_from_ce).map(|day| day.to_string())
}

/// The Unix epoch, in days from the first day of the common era.
pub const EPOCH_DAY: i32 = 719163;

/// A day counted from the Unix epoch: as a calendar date where the calendar
/// reaches that far, as the bare day number elsewhere.
pub open spec fn date_text(days: i32) -> Seq<char> {
    if days + EPOCH_DAY > i32::MAX {
        text::decimal_int(days as int)
    } else {
        match calendar_day_text((days + EPOCH_DAY) as i32) {
            Some(t) => t,
            None => text::decimal_int(days as int),
        }
    }
}

/// The bytes in decimal, separated by commas.
pub open spec fn bytes_text(bytes: Seq<u8>) -> Seq<char> {
    text::join(Seq::new(bytes.len(), |i: int| text::decimal(bytes[i] as nat)), ","@)
}

/// The text of a cell.
pub open spec fn scalar_text(value: Scalar) -> Seq<char> {
    match value {
        Scalar::Null => "NULL"@,
        Scalar::Boolean(b) => if b { "true"@ } else { "false"@ },
        Scalar::Int8(n) => text::decimal_int(n as int),
        Scalar::Int16(n) => text::decimal_int(n as int),
        Scalar::Int32(n) => text::decimal_int(n as int),
        Scalar::Int64(n) => text::decimal_int(n as int),
        Scalar::UInt8(n) => text::decimal_int(n as int),
        Scalar::UInt16(n) => text::decimal_int(n as int),
        Scalar::UInt32(n) => text::decimal_int(n as int),
        Scalar::UInt64(n) => text::decimal_int(n as int),
        Scalar::Float32(bits) => float32_text(bits),
        Scalar::Float64(bits) => float64_text(bits),
        Scalar::Utf8(s) => s,
        Scalar::Binary(b) => bytes_text(b),
        Scalar::Date32(d) => date_text(d),
        Scalar::Other { kind, .. } => DataType::Other(kind).spec_name(),
    }
}

fn int_string(n: i128) -> (r: String)
    requires
        n > i128::MIN,
    ensures
        r@ == text::decimal_int(n as int),
{
    let mut out: String = String::new();
    push_decimal_int(&mut out, n);
    out
}

fn bytes_string(bytes: &Vec<u8>) -> (r: String)
    ensures
        r@ == bytes_text(bytes@),
{
    let mut parts: Vec<String> = Vec::new();
    let mut i: usize = 0;
    while i < bytes.len()
        invariant
            i <= bytes.len(),
            parts.len() == i,
            forall|j: int| 0 <= j < i ==> (#[trigger] parts@[j])@ == text::decimal(bytes@[j] as nat),
        decreases bytes.len() - i,
    {
        parts.push(text::decimal_string(bytes[i] as u128));
        i += 1;
    }
    assert(text::views(parts@) == Seq::new(
        bytes@.len(),
        |i: int| text::decimal(bytes@[i] as nat),
    ));
    text::joined(&parts, ",")
}

fn date_string(days: i32) -> (r: String)
    ensures
        r@ == date_text(days),
{
    match days.checked_add(EPOCH_DAY) {
        Some(day) => match calendar_day_to_string(day) {
            Some(t) => t,
            None => int_string(days as i128),
        },
        None => int_string(days as i128),
    }
}

impl ScalarValue {
    /// The text of the cell.
    pub fn to_string(&self) -> (r: String)
        ensures
            r@ == scalar_text(self@),
    {
        match self {
            ScalarValue::Null => owned("NULL"),
            ScalarValue::Boolean(b) => if *b {
                owned("true")
            } else {
                owned("false")
            },
            ScalarValue::Int8(n) => int_string(*n as i128),
            ScalarValue::Int16(n) => int_string(*n as i128),
            ScalarValue::Int32(n) => int_string(*n as i128),
            ScalarValue::Int64(n) => int_string(*n as i128),
            ScalarValue::UInt8(n) => int_string(*n as i128),
            ScalarValue::UInt16(n) => int_string(*n as i128),
            ScalarValue::UInt32(n) => int_string(*n as i128),
            ScalarValue::UInt64(n) => int_string(*n as i128),
            ScalarValue::Float32(bits) => float32_to_string(*bits),
            ScalarValue::Float64(bits) => float64_to_string(*bits),
            ScalarValue::Utf8(s) => s.clone(),
            ScalarValue::Binary(b) => bytes_string(b),
            ScalarValue::Date32(d) => date_string(*d),
            ScalarValue::Other { kind, .. } => DataType::Other(*kind).name(),
        }
    }
}

/// An expression over the columns of a batch.
#[derive(Debug)]
pub enum PhysicalExpr {
    /// A column of the input, by name and position.
    Column { name: String, index: usize },
    /// A constant.
    Literal { value: ScalarValue },
    /// An operator between two expressions.
    Binary { left: Box<PhysicalExpr>, op: Operator, right: Box<PhysicalExpr> },
    /// A conversion to another type.
    Cast { expr: Box<PhysicalExpr>, data_type: DataType },
    /// An expression defined elsewhere, known here by the text it renders to.
    Other { text: String },
}

/// The mathematical value of an expression.
pub enum Expr {
    Column { name: Seq<char>, index: usize },
    Literal { value: Scalar },
    Binary { left: Box<Expr>, op: Operator, right: Box<Expr> },
    Cast { expr: Box<Expr>, data_type: DataType },
    Other { text: Seq<char> },
}

impl View for PhysicalExpr {
    type V = Expr;

    open spec fn view(&self) -> Expr
        decreases self,
    {
        match *self {
            PhysicalExpr::Column { name, index } => Expr::Column { name: name@, index },
            PhysicalExpr::Literal { value } => Expr::Literal { value: value@ },
            PhysicalExpr::Binary { left, op, right } => Expr::Binary {
                left: Box::new((*left).view()),
                op,
                right: Box::new((*right).view()),
            },
            PhysicalExpr::Cast { expr, data_type } => Expr::Cast {
                expr: Box::new((*expr).view()),
                data_type,
            },
            PhysicalExpr::Other { text } => Expr::Other { text: text@ },
        }
    }
}

/// A column renders as its name and position.
pub open spec fn column_text(name: Seq<char>, index: nat) -> Seq<char> {
    name + "@"@ + text::decimal(index)
}

/// The text of an expression.
pub open spec fn expr_text(e: Expr) -> Seq<char>
    decreases e,
{
    match e {
        Expr::Column { name, index } => column_text(name, index as nat),
        Expr::Literal { value } => scalar_text(value),
        Expr::Binary { left, op, right } => expr_text(*left) + " "@ + op.spec_symbol() + " "@
            + expr_text(*right),
        Expr::Cast { expr, data_type } => "CAST("@ + expr_text(*expr) + " AS "@
            + data_type.spec_name() + ")"@,
        Expr::Other { text } => text,
    }
}

/// The expressions of a list.
pub open spec fn exprs(list: Seq<PhysicalExpr>) -> Seq<Expr> {
    Seq::new(list.len(), |i: int| list[i]@)
}

/// The texts of a list of expressions.
pub open spec fn expr_texts(list: Seq<Expr>) -> Seq<Seq<char>> {
    Seq::new(list.len(), |i: int| expr_text(list[i]))
}

impl PhysicalExpr {
    /// A column of the input.
    pub fn column(name: &str, index: usize) -> (r: PhysicalExpr)
        ensures
            r@ == (Expr::Column { name: name@, index }),
    {
        PhysicalExpr::Column { name: owned(name), index }
    }

    /// A constant.
    pub fn literal(value: ScalarValue) -> (r: PhysicalExpr)
        ensures
            r@ == (Expr::Literal { value: value@ }),
    {
        PhysicalExpr::Literal { value }
    }

    /// An operator between two expressions.
    pub fn binary(left: PhysicalExpr, op: Operator, right: PhysicalExpr) -> (r: PhysicalExpr)
        ensures
            r@ == (Expr::Binary { left: Box::new(left@), op, right: Box::new(right@) }),
    {
        PhysicalExpr::Binary { left: Box::new(left), op, right: Box::new(right) }
    }

    /// A conversion to another type.
    pub fn cast(expr: PhysicalExpr, data_type: DataType) -> (r: PhysicalExpr)
        ensures
            r@ == (Expr::Cast { expr: Box::new(expr@), data_type }),
    {
        PhysicalExpr::Cast { expr: Box::new(expr), data_type }
    }

    /// The text of the expression.
    pub fn to_string(&self) -> (r: String)
        ensures
            r@ == expr_text(self@),
        decreases self,
    {
        match self {
            PhysicalExpr::Column { name, index } => {
                let mut out: String = name.clone();
                out.append("@");
                push_decimal(&mut out, *index as u128);
                out
            },
            PhysicalExpr::Literal { value } => value.to_string(),
            PhysicalExpr::Binary { left, op, right } => {
                let mut out: String = left.to_string();
                out.append(" ");
                out.append(op.symbol());
                out.append(" ");
                let tail: String = right.to_string();
                out.append(tail.as_str());
                out
            },
            PhysicalExpr::Cast { expr, data_type } => {
                let mut out: String = owned("CAST(");
                let inner: String = expr.to_string();
                out.append(inner.as_str());
                out.append(" AS ");
                out.append(data_type.name().as_str());
                out.append(")");
                out
            },
            PhysicalExpr::Other { text } => text.clone(),
        }
    }
}

impl Clone for PhysicalExpr {
    fn clone(&self) -> (r: Self)
        ensures
            r@ == self@,
        decreases self,
    {
        match self {
            PhysicalExpr::Column { name, index } => PhysicalExpr::Column {
                name: name.clone(),
                index: *index,
            },
            PhysicalExpr::Literal { value } => PhysicalExpr::Literal { value: value.clone() },
            PhysicalExpr::Binary { left, op, right } => {
                let l: PhysicalExpr = (&**left).clone();
                let r: PhysicalExpr = (&**right).clone();
                PhysicalExpr::Binary { left: Box::new(l), op: *op, right: Box::new(r) }
            },
            PhysicalExpr::Cast { expr, data_type } => {
                let e: PhysicalExpr = (&**expr).clone();
                PhysicalExpr::Cast { expr: Box::new(e), data_type: *data_type }
            },
            PhysicalExpr::Other { text } => PhysicalExpr::Other { text: text.clone() },
        }
    }
}

/// A copy of a list of expressions.
pub fn copy_exprs(list: &Vec<PhysicalExpr>) -> (r: Vec<PhysicalExpr>)
    ensures
        exprs(r@) == exprs(list@),
{
    let mut r: Vec<PhysicalExpr> = Vec::new();
    let mut i: usize = 0;
    while i < list.len()
        invariant
            i <= list.len(),
            r.len() == i,
            forall|j: int| 0 <= j < i ==> (#[trigger] r@[j])@ == list@[j]@,
        decreases list.len() - i,
    {
        r.push(list[i].clone());
        i += 1;
    }
    assert(exprs(r@) == exprs(list@));
    r
}

/// The texts of a list of expressions.
pub fn expr_strings(list: &Vec<PhysicalExpr>) -> (r: Vec<String>)
    ensures
        text::views(r@) == expr_texts(exprs(list@)),
{
    let mut r: Vec<String> = Vec::new();
    let mut i: usize = 0;
    while i < list.len()
        invariant
            i <= list.len(),
            r.len() == i,
            forall|j: int| 0 <= j < i ==> (#[trigger] r@[j])@ == expr_text(list@[j]@),
        decreases list.len() - i,
    {
        r.push(list[i].to_string());
        i += 1;
    }
    assert(text::views(r@) == expr_texts(exprs(list@)));
    r
}

} // verus!
