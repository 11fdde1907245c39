//! The errors the library reports.
use vstd::prelude::*;

verus! {

/// An error of the query engine. Each variant carries its message.
#[derive(Debug)]
pub enum FdapQueryError {
    /// An invariant of the engine does not hold.
    Internal(String),
    /// The plan asks for something that makes no sense.
    Plan(String),
    /// The plan asks for something the engine does not support.
    NotImplemented(String),
    /// A name or a column that the schema does not have.
    SchemaError(String),
    /// The columnar layer refused an operation.
    ArrowError(String),
    /// A failure while a plan was running.
    Execution(String),
}

/// The mathematical value of an error: its kind and its message.
pub enum Fault {
    Internal(Seq<char>),
    Plan(Seq<char>),
    NotImplemented(Seq<char>),
    SchemaError(Seq<char>),
    ArrowError(Seq<char>),
    Execution(Seq<char>),
}

impl View for FdapQueryError {
    type V = Fault;

    open spec fn view(&self) -> Fault {
        match *self {
            FdapQueryError::Internal(m) => Fault::Internal(m@),
            FdapQueryError::Plan(m) => Fault::Plan(m@),
            FdapQueryError::NotImplemented(m) => Fault::NotImplemented(m@),
            FdapQueryError::SchemaError(m) => Fault::SchemaError(m@),
            FdapQueryError::ArrowError(m) => Fault::ArrowError(m@),
            FdapQueryError::Execution(m) => Fault::Execution(m@),
        }
    }
}

impl FdapQueryError {
    /// The message of the error.
    pub fn message(&self) -> (r: &str)
        ensures
            r@ == self@.message(),
    {
        match self {
            FdapQueryError::Internal(m) => m.as_str(),
            FdapQueryError::Plan(m) => m.as_str(),
            FdapQueryError::NotImplemented(m) => m.as_str(),
            FdapQueryError::SchemaError(m) => m.as_str(),
            FdapQueryError::ArrowError(m) => m.as_str(),
            FdapQueryError::Execution(m) => m.as_str(),
        }
    }
}

impl Fault {
    /// The message of the error.
    pub open spec fn message(self) -> Seq<char> {
        match self {
            Fault::Internal(m) => m,
            Fault::Plan(m) => m,
            Fault::NotImplemented(m) => m,
            Fault::SchemaError(m) => m,
            Fault::ArrowError(m) => m,
            Fault::Execution(m) => m,
        }
    }
}

} // verus!
