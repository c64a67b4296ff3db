use agent_nodes::agent::AgentType;
use agent_nodes::errors::EvalError;
use agent_nodes::evaluator::Engine;
use agent_nodes::ids::NodeId;
use agent_nodes::nodes::{
    AgentAction, AtomicBinOp, AtomicIo, AtomicType, Complex, ControlFlow, Instance, NodeType,
};
use agent_nodes::value::{DataType, DataValue};

const FUEL: u64 = 1000;

/// An engine with one single-node scope, so atomic operations can be
/// exercised directly.
fn one_node_engine() -> (Engine, usize) {
    let c = Complex {
        inputs: Vec::new(),
        outputs: Vec::new(),
        end_node: NodeId(1),
        defaults: Vec::new(),
        instances: vec![(
            NodeId(1),
            Instance {
                node_type: NodeType::Atomic(AtomicType::Control(ControlFlow::End)),
                default_overrides: Vec::new(),
                outputs: Vec::new(),
                inputs: Vec::new(),
            },
        )],
    };
    let mut engine = Engine::create(Vec::new(), Vec::new(), Vec::new(), Vec::new());
    let tpl = engine.add_template(c);
    let s = engine.build_scope(tpl, None, 7, String::new(), true);
    (engine, s)
}

#[test]
fn regex_error_carries_pattern() {
    let (mut engine, s) = one_node_engine();
    let inputs = vec![
        DataValue::String(String::from("(")),
        DataValue::String(String::from("X")),
        DataValue::String(String::from("abc")),
    ];
    let r = engine.eval_atomic(AtomicType::Replace, s, 0, inputs, FUEL);
    assert!(matches!(r, Err(EvalError::RegexError(p)) if p == "("));
}

#[test]
fn wrong_arity_is_input_count_error() {
    let (mut engine, s) = one_node_engine();
    let r = engine.eval_atomic(
        AtomicType::BinOp(AtomicBinOp::Add),
        s,
        0,
        vec![DataValue::Integer(1)],
        FUEL,
    );
    assert!(matches!(r, Err(EvalError::IncorrectInputCount)));
}

#[test]
fn wrong_types_are_typing_error() {
    let (mut engine, s) = one_node_engine();
    let r = engine.eval_atomic(
        AtomicType::Io(AtomicIo::GetLine),
        s,
        0,
        vec![DataValue::Integer(3)],
        FUEL,
    );
    match r {
        Err(EvalError::IncorrectTyping { got, expected }) => {
            assert_eq!(got, vec![DataType::Integer]);
            assert_eq!(expected, vec![DataType::Handle]);
        },
        other => panic!("unexpected {:?}", other),
    }
}

#[test]
fn unknown_handle_is_io_not_found() {
    let (mut engine, s) = one_node_engine();
    let r = engine.eval_atomic(
        AtomicType::Io(AtomicIo::Read),
        s,
        0,
        vec![DataValue::Handle(999), DataValue::Integer(4)],
        FUEL,
    );
    assert!(matches!(r, Err(EvalError::IoNotFound(999))));
}

#[test]
fn unknown_agent_is_agent_not_found() {
    let (mut engine, s) = one_node_engine();
    let r = engine.eval_atomic(
        AtomicType::AgentOp(AgentAction::Send),
        s,
        0,
        vec![
            DataValue::Agent(AgentType::OpenAi, 123),
            DataValue::String(String::from("hello")),
        ],
        FUEL,
    );
    assert!(matches!(r, Err(EvalError::AgentNotFound(123))));
}

#[test]
fn unknown_local_id_is_node_not_found() {
    let (engine, s) = one_node_engine();
    let r = engine.find_node(s, NodeId(42));
    assert!(matches!(r, Err(EvalError::NodeNotFound(_))));
}

#[test]
fn cast_failure_is_cast_error() {
    let (mut engine, s) = one_node_engine();
    let r = engine.eval_atomic(
        AtomicType::Cast(DataType::Handle),
        s,
        0,
        vec![DataValue::Integer(1)],
        FUEL,
    );
    assert!(matches!(
        r,
        Err(EvalError::CastError((DataType::Integer, DataType::Handle)))
    ));
}
