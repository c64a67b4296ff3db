//! The node catalog: the atomic operation taxonomy, the static description
//! of one node (`Instance`), and the serialized form of a sub-graph
//! (`Complex`). An input edge carries its declared type, the source node,
//! the source port, and whether the edge is strong.
use vstd::prelude::*;
use crate::agent::AgentType;
use crate::ids::NodeId;
use crate::value::{DataType, DataValue, ValView, views_of_pairs};

verus! {

/// One input edge: declared type, source node, source port, and whether
/// demand flows through it (strong) or it merely samples (weak).
#[derive(Clone, Copy, Debug, PartialEq, Eq, Structural)]
pub struct InputEdge {
    pub ty: DataType,
    pub src: NodeId,
    pub port: usize,
    pub strong: bool,
}

/// The control-flow operations; the edge names the node they drive.
#[derive(Clone, Copy, Debug, PartialEq, Eq, Structural)]
pub enum ControlFlow {
    Start,
    End,
    If(InputEdge),
    While(InputEdge),
    WaitForInit(InputEdge),
}

/// The logical operations.
#[derive(Clone, Copy, Debug, PartialEq, Eq, Structural)]
pub enum AtomicLogic {
    And,
    Or,
    Xor,
    Not,
    Eq,
}

/// What an I/O handle is opened over.
#[derive(Clone, Copy, Debug, PartialEq, Eq, Structural)]
pub enum IoType {
    File,
    TcpSocket,
}

/// The I/O operations.
#[derive(Clone, Copy, Debug, PartialEq, Eq, Structural)]
pub enum AtomicIo {
    Open(IoType),
    Read,
    Write,
    GetLine,
    ConsoleInput,
}

/// The binary arithmetic operations.
#[derive(Clone, Copy, Debug, PartialEq, Eq, Structural)]
pub enum AtomicBinOp {
    Add,
    Sub,
    Mul,
    Div,
    Pow,
    Mod,
}

/// The unary operations.
#[derive(Clone, Copy, Debug, PartialEq, Eq, Structural)]
pub enum AtomicUnaryOp {
    Neg,
}

/// Whether a variable node writes or reads its named scope variable.
#[derive(Clone, Copy, Debug, PartialEq, Eq, Structural)]
pub enum VarAction {
    Store,
    Get,
}

/// The agent operations.
#[derive(Clone, Copy, Debug, PartialEq, Eq, Structural)]
pub enum AgentAction {
    Create(AgentType),
    Send,
    Recieve,
}

/// One atomic operation, with its static payload.
#[derive(Debug)]
pub enum AtomicType {
    Print,
    Replace,
    BinOp(AtomicBinOp),
    UnaryOp(AtomicUnaryOp),
    Value(DataValue),
    Control(ControlFlow),
    Variable(VarAction, String),
    Io(AtomicIo),
    Cast(DataType),
    IsNone,
    LogicalOp(AtomicLogic),
    AgentOp(AgentAction),
}

/// The shape of an atomic operation.
pub enum AtomicTypeV {
    PrintV,
    ReplaceV,
    BinOpV(AtomicBinOp),
    UnaryOpV(AtomicUnaryOp),
    ValueV(ValView),
    ControlV(ControlFlow),
    VariableV(VarAction, Seq<char>),
    IoV(AtomicIo),
    CastV(DataType),
    IsNoneV,
    LogicalOpV(AtomicLogic),
    AgentOpV(AgentAction),
}

impl View for AtomicType {
    type V = AtomicTypeV;

    open spec fn view(&self) -> AtomicTypeV {
        match *self {
            AtomicType::Print => AtomicTypeV::PrintV,
            AtomicType::Replace => AtomicTypeV::ReplaceV,
            AtomicType::BinOp(op) => AtomicTypeV::BinOpV(op),
            AtomicType::UnaryOp(op) => AtomicTypeV::UnaryOpV(op),
            AtomicType::Value(v) => AtomicTypeV::ValueV(v@),
            AtomicType::Control(c) => AtomicTypeV::ControlV(c),
            AtomicType::Variable(a, n) => AtomicTypeV::VariableV(a, n@),
            AtomicType::Io(io) => AtomicTypeV::IoV(io),
            AtomicType::Cast(t) => AtomicTypeV::CastV(t),
            AtomicType::IsNone => AtomicTypeV::IsNoneV,
            AtomicType::LogicalOp(l) => AtomicTypeV::LogicalOpV(l),
            AtomicType::AgentOp(a) => AtomicTypeV::AgentOpV(a),
        }
    }
}

impl AtomicType {
    /// A deep copy of this operation, with the same shape.
    pub fn duplicate(&self) -> (r: AtomicType)
        ensures
            r@ == self@,
    {
        match self {
            AtomicType::Print => AtomicType::Print,
            AtomicType::Replace => AtomicType::Replace,
            AtomicType::BinOp(op) => AtomicType::BinOp(*op),
            AtomicType::UnaryOp(op) => AtomicType::UnaryOp(*op),
            AtomicType::Value(v) => AtomicType::Value(v.duplicate()),
            AtomicType::Control(c) => AtomicType::Control(*c),
            AtomicType::Variable(a, n) => AtomicType::Variable(*a, n.clone()),
            AtomicType::Io(io) => AtomicType::Io(*io),
            AtomicType::Cast(t) => AtomicType::Cast(*t),
            AtomicType::IsNone => AtomicType::IsNone,
            AtomicType::LogicalOp(l) => AtomicType::LogicalOp(*l),
            AtomicType::AgentOp(a) => AtomicType::AgentOp(*a),
        }
    }
}

/// What a node does: a built-in atomic operation, or a sub-graph
/// resolved from a path.
#[derive(Debug)]
pub enum NodeType {
    Atomic(AtomicType),
    Complex(String),
}

/// The shape of a node's operation.
pub enum NodeTypeV {
    AtomicV(AtomicTypeV),
    ComplexV(Seq<char>),
}

impl View for NodeType {
    type V = NodeTypeV;

    open spec fn view(&self) -> NodeTypeV {
        match self {
            NodeType::Atomic(a) => NodeTypeV::AtomicV(a@),
            NodeType::Complex(p) => NodeTypeV::ComplexV(p@),
        }
    }
}

impl NodeType {
    /// A deep copy of this operation, with the same shape.
    pub fn duplicate(&self) -> (r: NodeType)
        ensures
            r@ == self@,
    {
        match self {
            NodeType::Atomic(a) => NodeType::Atomic(a.duplicate()),
            NodeType::Complex(p) => NodeType::Complex(p.clone()),
        }
    }
}

/// The static description of one node: its operation, its default
/// overrides, its declared output types, and its input edges.
#[derive(Debug)]
pub struct Instance {
    pub node_type: NodeType,
    pub default_overrides: Vec<(String, DataValue)>,
    pub outputs: Vec<DataType>,
    pub inputs: Vec<InputEdge>,
}

/// The shape of an instance.
pub struct InstanceV {
    pub node_type: NodeTypeV,
    pub default_overrides: Seq<(Seq<char>, ValView)>,
    pub outputs: Seq<DataType>,
    pub inputs: Seq<InputEdge>,
}

impl View for Instance {
    type V = InstanceV;

    open spec fn view(&self) -> InstanceV {
        InstanceV {
            node_type: self.node_type@,
            default_overrides: views_of_pairs(self.default_overrides@),
            outputs: self.outputs@,
            inputs: self.inputs@,
        }
    }
}

/// The serialized form of one sub-graph: its boundary types, the sink
/// node, named defaults, and the local instances keyed by local id.
#[derive(Debug)]
pub struct Complex {
    pub inputs: Vec<DataType>,
    pub outputs: Vec<DataType>,
    pub end_node: NodeId,
    pub defaults: Vec<(String, DataValue)>,
    pub instances: Vec<(NodeId, Instance)>,
}

/// The shape of a sub-graph description.
pub struct ComplexV {
    pub inputs: Seq<DataType>,
    pub outputs: Seq<DataType>,
    pub end_node: NodeId,
    pub defaults: Seq<(Seq<char>, ValView)>,
    pub instances: Seq<(NodeId, InstanceV)>,
}

/// The shapes of a sequence of keyed instances.
pub open spec fn views_of_instances(s: Seq<(NodeId, Instance)>) -> Seq<(NodeId, InstanceV)>
    decreases s,
{
    if s.len() == 0 {
        Seq::empty()
    } else {
        views_of_instances(s.drop_last()) + seq![(s.last().0, s.last().1@)]
    }
}

/// `views_of_instances` maps the sequence pointwise.
pub proof fn lemma_views_of_instances(s: Seq<(NodeId, Instance)>)
    ensures
        views_of_instances(s).len() == s.len(),
        forall|i: int| 0 <= i < s.len() ==> views_of_instances(s)[i]
            == ((#[trigger] s[i]).0, s[i].1@),
    decreases s.len(),
{
    if s.len() > 0 {
        lemma_views_of_instances(s.drop_last());
        assert forall|i: int| 0 <= i < s.len() implies views_of_instances(s)[i]
            == ((#[trigger] s[i]).0, s[i].1@) by {
            if i < s.len() - 1 {
                assert(s.drop_last()[i] == s[i]);
            } else {
                assert(s.last() == s[i]);
            }
        }
    }
}

impl View for Complex {
    type V = ComplexV;

    open spec fn view(&self) -> ComplexV {
        ComplexV {
            inputs: self.inputs@,
            outputs: self.outputs@,
            end_node: self.end_node,
            defaults: views_of_pairs(self.defaults@),
            instances: views_of_instances(self.instances@),
        }
    }
}

} // verus!
