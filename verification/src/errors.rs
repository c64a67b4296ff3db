//! The evaluation error taxonomy. Failures from outside crates are
//! carried as plain data: a path or pattern text, a rendered message, or
//! the identifier that missed.
use vstd::prelude::*;
use crate::agent::AgentErr;
use crate::ids::NodeId;
use crate::value::{ArithmaticError, DataType};

verus! {

/// Everything evaluation can fail with.
#[derive(Debug)]
pub enum EvalError {
    /// An arithmetic operator failed.
    MathError(ArithmaticError),
    /// A sub-graph file did not parse; carries its path and a description.
    InvalidComplexNode(String, String),
    /// An underlying read or write failed; carries a description.
    IoError(String),
    /// A sub-graph could not be resolved from this path.
    ComplexNotFound(String),
    /// A listener's channel closed before a value arrived.
    ChannelRecvErr,
    /// No I/O handle is registered under this identifier.
    IoNotFound(u128),
    /// No agent is registered under this identifier.
    AgentNotFound(u128),
    /// Inputs had the wrong types for the operation.
    IncorrectTyping { got: Vec<DataType>, expected: Vec<DataType> },
    /// The wrong number of inputs arrived.
    IncorrectInputCount,
    /// A replace pattern did not compile; carries the pattern.
    RegexError(String),
    /// A read-until never saw its pattern; carries the handle and pattern.
    PatternNotFound(u128, Vec<u8>),
    /// Text read from a handle was not valid UTF-8.
    InvalidUtf8,
    /// A listener asked for an output port the node does not have.
    PortOutOfBounds(usize),
    /// No node resolves to this identifier in the scope.
    NodeNotFound(NodeId),
    /// A cast failed; carries the pair of types.
    CastError((DataType, DataType)),
    /// An agent operation failed.
    AgentErr(AgentErr),
    /// A drain found no node listening.
    NoListeningNode,
    /// The scope's designated sink is missing.
    NoEndNode,
    /// The scope was closed under the operation.
    Closed,
    /// A sub-graph node received an unresolved (weak) input.
    ComplexWeakInput,
}

impl EvalError {
    /// Wraps an arithmetic failure.
    pub fn from_arith(value: ArithmaticError) -> (r: EvalError)
        ensures
            r matches EvalError::MathError(_),
    {
        EvalError::MathError(value)
    }

    /// Wraps an agent failure.
    pub fn from_agent(value: AgentErr) -> (r: EvalError)
        ensures
            r matches EvalError::AgentErr(_),
    {
        EvalError::AgentErr(value)
    }
}

} // verus!
