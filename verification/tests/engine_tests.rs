use agent_nodes::errors::EvalError;
use agent_nodes::evaluator::Engine;
use agent_nodes::ids::{NodeId, convert_id};
use agent_nodes::nodes::{
    AtomicBinOp, AtomicIo, AtomicLogic, AtomicType, AtomicUnaryOp, Complex, ControlFlow,
    InputEdge, Instance, IoType, NodeType, VarAction,
};
use agent_nodes::value::{DataType, DataValue};
use agent_nodes::nodes::AgentAction;
use agent_nodes::agent::AgentType;

const FUEL: u64 = 100000;

fn edge(src: u128, port: usize) -> InputEdge {
    InputEdge { ty: DataType::Integer, src: NodeId(src), port, strong: true }
}

fn inst(op: AtomicType, inputs: Vec<InputEdge>, nouts: usize) -> Instance {
    Instance {
        node_type: NodeType::Atomic(op),
        default_overrides: Vec::new(),
        outputs: vec![DataType::Integer; nouts],
        inputs,
    }
}

fn empty_engine() -> Engine {
    Engine::create(Vec::new(), Vec::new(), Vec::new(), Vec::new())
}

fn run_graph(c: Complex) -> Result<Vec<DataValue>, EvalError> {
    let mut engine = empty_engine();
    run_graph_on(&mut engine, c)
}

fn run_graph_on(engine: &mut Engine, c: Complex) -> Result<Vec<DataValue>, EvalError> {
    let tpl = engine.add_template(c);
    let t = engine.build_scope(tpl, None, 7, String::new(), false);
    let inst = engine.instantiate(t, Vec::new());
    engine.get_outputs(inst, FUEL)
}

#[test]
fn constant_sum_graph() {
    // Value(2) and Value(3) feed BinOp(Add), which feeds the end node.
    let c = Complex {
        inputs: Vec::new(),
        outputs: vec![DataType::Integer],
        end_node: NodeId(4),
        defaults: Vec::new(),
        instances: vec![
            (NodeId(1), inst(AtomicType::Value(DataValue::Integer(2)), Vec::new(), 1)),
            (NodeId(2), inst(AtomicType::Value(DataValue::Integer(3)), Vec::new(), 1)),
            (NodeId(3), inst(
                AtomicType::BinOp(AtomicBinOp::Add),
                vec![edge(1, 0), edge(2, 0)],
                1,
            )),
            (NodeId(4), inst(
                AtomicType::Control(ControlFlow::End),
                vec![edge(3, 0)],
                1,
            )),
        ],
    };
    let outs = run_graph(c).expect("graph should produce outputs");
    assert_eq!(outs.len(), 1);
    assert!(outs[0].equals(&DataValue::Integer(5)));
}

#[test]
fn regex_replace_first_match() {
    let sv = |s: &str| AtomicType::Value(DataValue::String(String::from(s)));
    let c = Complex {
        inputs: Vec::new(),
        outputs: vec![DataType::String],
        end_node: NodeId(5),
        defaults: Vec::new(),
        instances: vec![
            (NodeId(1), inst(sv("a.b"), Vec::new(), 1)),
            (NodeId(2), inst(sv("X"), Vec::new(), 1)),
            (NodeId(3), inst(sv("catbdogb"), Vec::new(), 1)),
            (NodeId(4), inst(
                AtomicType::Replace,
                vec![edge(1, 0), edge(2, 0), edge(3, 0)],
                1,
            )),
            (NodeId(5), inst(
                AtomicType::Control(ControlFlow::End),
                vec![edge(4, 0)],
                1,
            )),
        ],
    };
    let outs = run_graph(c).expect("replace should succeed");
    // The leftmost match of `a.b` in `catbdogb` is `atb`.
    assert!(outs[0].equals(&DataValue::String(String::from("cXdogb"))));
}

#[test]
fn bad_regex_pattern_is_error() {
    let sv = |s: &str| AtomicType::Value(DataValue::String(String::from(s)));
    let c = Complex {
        inputs: Vec::new(),
        outputs: vec![DataType::String],
        end_node: NodeId(5),
        defaults: Vec::new(),
        instances: vec![
            (NodeId(1), inst(sv("("), Vec::new(), 1)),
            (NodeId(2), inst(sv("X"), Vec::new(), 1)),
            (NodeId(3), inst(sv("abc"), Vec::new(), 1)),
            (NodeId(4), inst(
                AtomicType::Replace,
                vec![edge(1, 0), edge(2, 0), edge(3, 0)],
                1,
            )),
            (NodeId(5), inst(
                AtomicType::Control(ControlFlow::End),
                vec![edge(4, 0)],
                1,
            )),
        ],
    };
    // The replace node fails and closes; the sink observes the close.
    assert!(matches!(run_graph(c), Err(EvalError::Closed)));
}

#[test]
fn while_loop_with_feedback() {
    // i starts at 0 through a dangling initializer; the loop body adds 1
    // until i equals 3; the final read emits 3.
    let var_get = || AtomicType::Variable(VarAction::Get, String::from("i"));
    let var_set = || AtomicType::Variable(VarAction::Store, String::from("i"));
    let c = Complex {
        inputs: Vec::new(),
        outputs: vec![DataType::Integer],
        end_node: NodeId(13),
        defaults: Vec::new(),
        instances: vec![
            // dangling initializer: i := 0
            (NodeId(1), inst(AtomicType::Value(DataValue::Integer(0)), Vec::new(), 1)),
            (NodeId(2), inst(var_set(), vec![edge(1, 0)], 0)),
            // loop condition: !(i == 3)
            (NodeId(3), inst(var_get(), Vec::new(), 1)),
            (NodeId(4), inst(AtomicType::Value(DataValue::Integer(3)), Vec::new(), 1)),
            (NodeId(5), inst(
                AtomicType::LogicalOp(AtomicLogic::Eq),
                vec![edge(3, 0), edge(4, 0)],
                1,
            )),
            (NodeId(6), inst(AtomicType::LogicalOp(AtomicLogic::Not), vec![edge(5, 0)], 1)),
            // loop body: i := i + 1, driven through node 10
            (NodeId(7), inst(var_get(), Vec::new(), 1)),
            (NodeId(8), inst(AtomicType::Value(DataValue::Integer(1)), Vec::new(), 1)),
            (NodeId(9), inst(
                AtomicType::BinOp(AtomicBinOp::Add),
                vec![edge(7, 0), edge(8, 0)],
                1,
            )),
            (NodeId(10), inst(var_set(), vec![edge(9, 0)], 0)),
            // the while drives the body while the condition holds
            (NodeId(11), inst(
                AtomicType::Control(ControlFlow::While(edge(10, 0))),
                vec![edge(6, 0)],
                1,
            )),
            // final read, sequenced after the loop
            (NodeId(12), inst(var_get(), vec![edge(11, 0)], 1)),
            (NodeId(13), inst(
                AtomicType::Control(ControlFlow::End),
                vec![edge(12, 0)],
                1,
            )),
        ],
    };
    let outs = run_graph(c).expect("loop should terminate");
    assert!(outs[0].equals(&DataValue::Integer(3)));
}

#[test]
fn file_read_via_loader() {
    let program = r#"{
        "inputs": [],
        "outputs": ["String"],
        "end_node": "00000000000000000000000000000004",
        "defaults": {},
        "instances": {
            "00000000000000000000000000000001": {
                "node_type": {"Atomic": {"Value": "/tmp/hello.txt"}},
                "default_overrides": {},
                "outputs": ["String"],
                "inputs": []
            },
            "00000000000000000000000000000002": {
                "node_type": {"Atomic": {"Io": {"Open": "File"}}},
                "default_overrides": {},
                "outputs": ["Handle"],
                "inputs": [["String", "00000000000000000000000000000001", 0, true]]
            },
            "00000000000000000000000000000003": {
                "node_type": {"Atomic": {"Io": "GetLine"}},
                "default_overrides": {},
                "outputs": ["String"],
                "inputs": [["Handle", "00000000000000000000000000000002", 0, true]]
            },
            "00000000000000000000000000000004": {
                "node_type": {"Atomic": {"Control": "End"}},
                "default_overrides": {},
                "outputs": ["String"],
                "inputs": [["String", "00000000000000000000000000000003", 0, true]]
            }
        }
    }"#;
    let files = vec![
        (String::from("prog.json"), String::from(program)),
        (String::from("/tmp/hello.txt"), String::from("hi\nsecond\n")),
    ];
    let mut engine = Engine::create(files, Vec::new(), Vec::new(), Vec::new());
    let t = engine.new_evaluator(&String::from("prog.json"), None).expect("load");
    let inst = engine.instantiate(t, Vec::new());
    let outs = engine.get_outputs(inst, FUEL).expect("first line");
    assert!(outs[0].equals(&DataValue::String(String::from("hi"))));
    // The handle is memoized on the node, so the next drain reads on.
    let outs = engine.get_outputs(inst, FUEL).expect("second line");
    assert!(outs[0].equals(&DataValue::String(String::from("second"))));
}

#[test]
fn nested_complex_negates() {
    let child = r#"{
        "inputs": ["Integer"],
        "outputs": ["Integer"],
        "end_node": "00000000000000000000000000000003",
        "defaults": {},
        "instances": {
            "00000000000000000000000000000001": {
                "node_type": {"Atomic": {"Control": "Start"}},
                "default_overrides": {},
                "outputs": ["Integer"],
                "inputs": []
            },
            "00000000000000000000000000000002": {
                "node_type": {"Atomic": {"UnaryOp": "Neg"}},
                "default_overrides": {},
                "outputs": ["Integer"],
                "inputs": [["Integer", "00000000000000000000000000000001", 0, true]]
            },
            "00000000000000000000000000000003": {
                "node_type": {"Atomic": {"Control": "End"}},
                "default_overrides": {},
                "outputs": ["Integer"],
                "inputs": [["Integer", "00000000000000000000000000000002", 0, true]]
            }
        }
    }"#;
    let parent = r#"{
        "inputs": [],
        "outputs": ["Integer"],
        "end_node": "00000000000000000000000000000003",
        "defaults": {},
        "instances": {
            "00000000000000000000000000000001": {
                "node_type": {"Atomic": {"Value": 7}},
                "default_overrides": {},
                "outputs": ["Integer"],
                "inputs": []
            },
            "00000000000000000000000000000002": {
                "node_type": {"Complex": "child.json"},
                "default_overrides": {},
                "outputs": ["Integer"],
                "inputs": [["Integer", "00000000000000000000000000000001", 0, true]]
            },
            "00000000000000000000000000000003": {
                "node_type": {"Atomic": {"Control": "End"}},
                "default_overrides": {},
                "outputs": ["Integer"],
                "inputs": [["Integer", "00000000000000000000000000000002", 0, true]]
            }
        }
    }"#;
    let files = vec![
        (String::from("prog.json"), String::from(parent)),
        (String::from("child.json"), String::from(child)),
    ];
    let mut engine = Engine::create(files, Vec::new(), Vec::new(), Vec::new());
    let t = engine.new_evaluator(&String::from("prog.json"), None).expect("load");
    let inst = engine.instantiate(t, Vec::new());
    let outs = engine.get_outputs(inst, FUEL).expect("nested run");
    assert!(outs[0].equals(&DataValue::Integer(-7)));
}

#[test]
fn close_cascade_surfaces_closed() {
    let c = Complex {
        inputs: Vec::new(),
        outputs: vec![DataType::Integer],
        end_node: NodeId(4),
        defaults: Vec::new(),
        instances: vec![
            (NodeId(1), inst(AtomicType::Value(DataValue::Integer(2)), Vec::new(), 1)),
            (NodeId(2), inst(AtomicType::Value(DataValue::Integer(3)), Vec::new(), 1)),
            (NodeId(3), inst(
                AtomicType::BinOp(AtomicBinOp::Add),
                vec![edge(1, 0), edge(2, 0)],
                1,
            )),
            (NodeId(4), inst(
                AtomicType::Control(ControlFlow::End),
                vec![edge(3, 0)],
                1,
            )),
        ],
    };
    let mut engine = empty_engine();
    let tpl = engine.add_template(c);
    let t = engine.build_scope(tpl, None, 7, String::new(), false);
    let s = engine.instantiate(t, Vec::new());
    // Force-close the upstream value node; the cascade reaches the sink.
    let upstream = convert_id(7, NodeId(1));
    let k = engine.find_node_scoped(s, upstream).expect("node exists");
    engine.broadcast_closed(s, k);
    assert!(matches!(engine.get_outputs(s, FUEL), Err(EvalError::Closed)));
}

#[test]
fn io_read_zero_size_yields_empty_array() {
    let c = Complex {
        inputs: Vec::new(),
        outputs: vec![DataType::Array],
        end_node: NodeId(5),
        defaults: Vec::new(),
        instances: vec![
            (NodeId(1), inst(
                AtomicType::Value(DataValue::String(String::from("data.bin"))),
                Vec::new(),
                1,
            )),
            (NodeId(2), inst(AtomicType::Io(AtomicIo::Open(IoType::File)), vec![edge(1, 0)], 1)),
            (NodeId(3), inst(AtomicType::Value(DataValue::Integer(0)), Vec::new(), 1)),
            (NodeId(4), inst(
                AtomicType::Io(AtomicIo::Read),
                vec![edge(2, 0), edge(3, 0)],
                1,
            )),
            (NodeId(5), inst(
                AtomicType::Control(ControlFlow::End),
                vec![edge(4, 0)],
                1,
            )),
        ],
    };
    let files = vec![(String::from("data.bin"), String::from("abcdef"))];
    let mut engine = Engine::create(files, Vec::new(), Vec::new(), Vec::new());
    let outs = run_graph_on(&mut engine, c).expect("read");
    match &outs[0] {
        DataValue::Array(items) => assert!(items.is_empty()),
        other => panic!("unexpected {:?}", other),
    }
}

#[test]
fn console_input_reads_line_with_terminator() {
    let c = Complex {
        inputs: Vec::new(),
        outputs: vec![DataType::String],
        end_node: NodeId(2),
        defaults: Vec::new(),
        instances: vec![
            (NodeId(1), inst(AtomicType::Io(AtomicIo::ConsoleInput), Vec::new(), 1)),
            (NodeId(2), inst(
                AtomicType::Control(ControlFlow::End),
                vec![edge(1, 0)],
                1,
            )),
        ],
    };
    let mut engine = Engine::create(
        Vec::new(),
        b"first line\nrest".to_vec(),
        Vec::new(),
        Vec::new(),
    );
    let outs = run_graph_on(&mut engine, c).expect("console read");
    assert!(outs[0].equals(&DataValue::String(String::from("first line\n"))));
}

#[test]
fn variable_get_on_unset_name_stays_none() {
    let mut engine = empty_engine();
    let c = Complex {
        inputs: Vec::new(),
        outputs: Vec::new(),
        end_node: NodeId(1),
        defaults: Vec::new(),
        instances: vec![(NodeId(1), inst(AtomicType::Control(ControlFlow::End), Vec::new(), 0))],
    };
    let tpl = engine.add_template(c);
    let s = engine.build_scope(tpl, None, 7, String::new(), true);
    let first = engine.var_get(s, &String::from("ghostname"));
    assert!(first.equals(&DataValue::Null));
    let second = engine.var_get(s, &String::from("ghostname"));
    assert!(second.equals(&DataValue::Null));
    engine.var_set(s, &String::from("ghostname"), DataValue::Integer(9));
    let third = engine.var_get(s, &String::from("ghostname"));
    assert!(third.equals(&DataValue::Integer(9)));
}

#[test]
fn shutdown_twice_equals_once() {
    let mut engine = empty_engine();
    let c = Complex {
        inputs: Vec::new(),
        outputs: Vec::new(),
        end_node: NodeId(1),
        defaults: Vec::new(),
        instances: vec![(NodeId(1), inst(AtomicType::Control(ControlFlow::End), Vec::new(), 0))],
    };
    let tpl = engine.add_template(c);
    let s = engine.build_scope(tpl, None, 7, String::new(), true);
    engine.shutdown(s);
    assert!(engine.is_closed(s));
    let vars_after_once = engine.scopes[s].variables.len();
    let nodes_after_once = engine.scopes[s].nodes.len();
    engine.shutdown(s);
    assert!(engine.is_closed(s));
    assert_eq!(engine.scopes[s].variables.len(), vars_after_once);
    assert_eq!(engine.scopes[s].nodes.len(), nodes_after_once);
}

#[test]
fn evaluator_cache_visible_up_the_chain() {
    let mut engine = empty_engine();
    let c = Complex {
        inputs: Vec::new(),
        outputs: Vec::new(),
        end_node: NodeId(1),
        defaults: Vec::new(),
        instances: vec![(NodeId(1), inst(AtomicType::Control(ControlFlow::End), Vec::new(), 0))],
    };
    let tpl = engine.add_template(c);
    let parent = engine.build_scope(tpl, None, 7, String::new(), false);
    let child = engine.build_scope(tpl, Some(parent), 8, String::new(), false);
    let grandchild = engine.build_scope(tpl, Some(child), 9, String::new(), false);
    let path = String::from("shared.json");
    engine.add_evaluator(grandchild, &path, parent);
    // Resolving from the registering scope and from every ancestor finds it.
    assert_eq!(engine.get_evaluator(grandchild, &path), Some(parent));
    assert_eq!(engine.get_evaluator(child, &path), Some(parent));
    assert_eq!(engine.get_evaluator(parent, &path), Some(parent));
}

#[test]
fn parent_chain_hit_is_memoized_locally() {
    let mut engine = empty_engine();
    let c = Complex {
        inputs: Vec::new(),
        outputs: Vec::new(),
        end_node: NodeId(1),
        defaults: Vec::new(),
        instances: vec![(NodeId(1), inst(AtomicType::Control(ControlFlow::End), Vec::new(), 0))],
    };
    let tpl = engine.add_template(c);
    let parent = engine.build_scope(tpl, None, 7, String::new(), false);
    let child = engine.build_scope(tpl, Some(parent), 8, String::new(), false);
    let path = String::from("shared.json");
    engine.add_evaluator(parent, &path, parent);
    assert!(engine.scopes[child].cache.iter().all(|(p, _)| p != &path));
    // A hit found on the parent walk lands in the child's own cache.
    assert_eq!(engine.get_evaluator(child, &path), Some(parent));
    assert!(engine.scopes[child].cache.iter().any(|(p, t)| p == &path && *t == parent));
}

#[test]
fn scoped_ids_are_vfive_of_locals() {
    let mut engine = empty_engine();
    let c = Complex {
        inputs: Vec::new(),
        outputs: vec![DataType::Integer],
        end_node: NodeId(2),
        defaults: Vec::new(),
        instances: vec![
            (NodeId(71), inst(AtomicType::Value(DataValue::Integer(1)), Vec::new(), 1)),
            (NodeId(72), inst(
                AtomicType::Control(ControlFlow::End),
                vec![edge(71, 0)],
                1,
            )),
        ],
    };
    let tpl = engine.add_template(c);
    let sid: u128 = 424242;
    let s = engine.build_scope(tpl, None, sid, String::new(), false);
    assert_eq!(engine.scopes[s].nodes.len(), 2);
    assert_eq!(engine.scopes[s].nodes[0].id, convert_id(sid, NodeId(71)));
    assert_eq!(engine.scopes[s].nodes[1].id, convert_id(sid, NodeId(72)));
    // Every edge source resolves to a node of the same scope.
    for node in engine.scopes[s].nodes.iter() {
        for e in node.inputs.iter() {
            assert!(engine.scopes[s].nodes.iter().any(|n| n.id == e.src));
        }
    }
}

#[test]
fn json_round_trip_keeps_scoped_ids() {
    let text = r#"{
        "inputs": [],
        "outputs": ["Integer"],
        "end_node": "0000000000000000000000000000000b",
        "defaults": {"seed": 5},
        "instances": {
            "0000000000000000000000000000000a": {
                "node_type": {"Atomic": {"Value": 2}},
                "default_overrides": {},
                "outputs": ["Integer"],
                "inputs": []
            },
            "0000000000000000000000000000000b": {
                "node_type": {"Atomic": {"Control": "End"}},
                "default_overrides": {},
                "outputs": ["Integer"],
                "inputs": [["Integer", "0000000000000000000000000000000a", 0, true]]
            }
        }
    }"#;
    let c1 = agent_nodes::loader::parse_complex(text).expect("parse");
    let printed = agent_nodes::loader::complex_to_json(&c1);
    let c2 = agent_nodes::loader::parse_complex(printed.as_str()).expect("reparse");
    let mut engine = empty_engine();
    let t1 = engine.add_template(c1);
    let t2 = engine.add_template(c2);
    let sid: u128 = 99;
    let s1 = engine.build_scope(t1, None, sid, String::new(), false);
    let s2 = engine.build_scope(t2, None, sid, String::new(), false);
    assert_eq!(engine.scopes[s1].nodes.len(), engine.scopes[s2].nodes.len());
    for (a, b) in engine.scopes[s1].nodes.iter().zip(engine.scopes[s2].nodes.iter()) {
        assert_eq!(a.id, b.id);
        assert_eq!(a.inputs, b.inputs);
    }
    assert_eq!(engine.scopes[s1].end_node, engine.scopes[s2].end_node);
}

#[test]
fn is_none_and_logic_ops() {
    let c = Complex {
        inputs: Vec::new(),
        outputs: vec![DataType::Boolean],
        end_node: NodeId(3),
        defaults: Vec::new(),
        instances: vec![
            (NodeId(1), inst(AtomicType::Value(DataValue::Boolean(true)), Vec::new(), 1)),
            (NodeId(2), inst(AtomicType::LogicalOp(AtomicLogic::Not), vec![edge(1, 0)], 1)),
            (NodeId(3), inst(
                AtomicType::Control(ControlFlow::End),
                vec![edge(2, 0)],
                1,
            )),
        ],
    };
    let outs = run_graph(c).expect("logic");
    assert!(outs[0].equals(&DataValue::Boolean(false)));
}

#[test]
fn agent_conversation_with_scripted_reply() {
    let c = Complex {
        inputs: Vec::new(),
        outputs: vec![DataType::String],
        end_node: NodeId(6),
        defaults: Vec::new(),
        instances: vec![
            (NodeId(1), inst(
                AtomicType::Value(DataValue::String(String::from("gpt"))),
                Vec::new(),
                1,
            )),
            (NodeId(2), inst(
                AtomicType::AgentOp(AgentAction::Create(AgentType::OpenAi)),
                vec![edge(1, 0)],
                1,
            )),
            (NodeId(3), inst(
                AtomicType::Value(DataValue::String(String::from("hello"))),
                Vec::new(),
                1,
            )),
            (NodeId(4), inst(
                AtomicType::AgentOp(AgentAction::Send),
                vec![edge(2, 0), edge(3, 0)],
                1,
            )),
            // the second input sequences the receive after the send
            (NodeId(5), inst(
                AtomicType::AgentOp(AgentAction::Recieve),
                vec![edge(2, 0), edge(4, 0)],
                1,
            )),
            (NodeId(6), inst(
                AtomicType::Control(ControlFlow::End),
                vec![edge(5, 0)],
                1,
            )),
        ],
    };
    let mut engine = Engine::create(
        Vec::new(),
        Vec::new(),
        Vec::new(),
        vec![String::from("hi there")],
    );
    let tpl = engine.add_template(c);
    let t = engine.build_scope(tpl, None, 7, String::new(), false);
    let s = engine.instantiate(t, Vec::new());
    let outs = engine.get_outputs(s, FUEL).expect("agent run");
    assert_eq!(outs.len(), 1);
    assert!(outs[0].equals(&DataValue::String(String::from("hi there"))));
}

#[test]
fn print_writes_display_forms() {
    let c = Complex {
        inputs: Vec::new(),
        outputs: vec![DataType::Null],
        end_node: NodeId(2),
        defaults: Vec::new(),
        instances: vec![
            (NodeId(1), inst(AtomicType::Value(DataValue::Integer(12)), Vec::new(), 1)),
            (NodeId(2), inst(AtomicType::Print, vec![edge(1, 0)], 1)),
        ],
    };
    let mut engine = empty_engine();
    let outs = run_graph_on(&mut engine, c).expect("print run");
    assert!(outs[0].equals(&DataValue::Null));
    let written: String = engine.stdout.iter().collect();
    assert_eq!(written, "12\n");
}

#[test]
fn missing_sub_graph_file_is_error() {
    let mut engine = empty_engine();
    let r = engine.new_evaluator(&String::from("absent.json"), None);
    assert!(matches!(r, Err(EvalError::IoError(_))));
}

#[test]
fn malformed_sub_graph_is_error() {
    let files = vec![(String::from("bad.json"), String::from("{ not json"))];
    let mut engine = Engine::create(files, Vec::new(), Vec::new(), Vec::new());
    let r = engine.new_evaluator(&String::from("bad.json"), None);
    assert!(matches!(r, Err(EvalError::InvalidComplexNode(_, _))));
}

#[test]
fn port_out_of_bounds_on_listen() {
    let c = Complex {
        inputs: Vec::new(),
        outputs: vec![DataType::Integer],
        end_node: NodeId(1),
        defaults: Vec::new(),
        instances: vec![
            (NodeId(1), inst(AtomicType::Value(DataValue::Integer(1)), Vec::new(), 1)),
        ],
    };
    let mut engine = empty_engine();
    let tpl = engine.add_template(c);
    let t = engine.build_scope(tpl, None, 7, String::new(), false);
    let s = engine.instantiate(t, Vec::new());
    let r = engine.listen(s, 0, 5, FUEL);
    assert!(matches!(r, Err(EvalError::PortOutOfBounds(5))));
}

#[test]
fn weak_edge_samples_latest_broadcast() {
    // An IsNone node samples its source weakly: it never triggers the
    // source, reads absent while no broadcast has filled its cached
    // listener, consumes one value per broadcast, and goes back to
    // absent afterwards.
    let weak = InputEdge { ty: DataType::Integer, src: NodeId(1), port: 0, strong: false };
    let c = Complex {
        inputs: Vec::new(),
        outputs: vec![DataType::Boolean],
        end_node: NodeId(3),
        defaults: Vec::new(),
        instances: vec![
            (NodeId(1), inst(AtomicType::Value(DataValue::Integer(5)), Vec::new(), 1)),
            (NodeId(2), inst(AtomicType::IsNone, vec![weak], 1)),
            (NodeId(3), inst(
                AtomicType::Control(ControlFlow::End),
                vec![edge(2, 0)],
                1,
            )),
        ],
    };
    let mut engine = empty_engine();
    let tpl = engine.add_template(c);
    let t = engine.build_scope(tpl, None, 7, String::new(), false);
    let s = engine.instantiate(t, Vec::new());
    // The weak edge never asks the source to produce: absent.
    let outs = engine.get_outputs(s, FUEL).expect("first drain");
    assert!(outs[0].equals(&DataValue::Boolean(true)));
    // Drive the source once; its broadcast fills the cached listener.
    let a = engine
        .find_node_scoped(s, convert_id(7, NodeId(1)))
        .expect("source node");
    let _ = engine.listen(s, a, 0, FUEL);
    let outs = engine.get_outputs(s, FUEL).expect("second drain");
    assert!(outs[0].equals(&DataValue::Boolean(false)));
    // The consumed value is gone; the fresh listener is empty again.
    let outs = engine.get_outputs(s, FUEL).expect("third drain");
    assert!(outs[0].equals(&DataValue::Boolean(true)));
}

#[test]
fn if_true_drives_subgraph() {
    // If(true) drives a Print chain to completion and discards results.
    let c = Complex {
        inputs: Vec::new(),
        outputs: vec![DataType::Null],
        end_node: NodeId(5),
        defaults: Vec::new(),
        instances: vec![
            (NodeId(1), inst(AtomicType::Value(DataValue::Boolean(true)), Vec::new(), 1)),
            (NodeId(2), inst(
                AtomicType::Value(DataValue::String(String::from("side"))),
                Vec::new(),
                1,
            )),
            (NodeId(3), inst(AtomicType::Print, vec![edge(2, 0)], 1)),
            (NodeId(4), inst(
                AtomicType::Control(ControlFlow::If(edge(3, 0))),
                vec![edge(1, 0)],
                1,
            )),
            (NodeId(5), inst(
                AtomicType::Control(ControlFlow::End),
                vec![edge(4, 0)],
                1,
            )),
        ],
    };
    let mut engine = empty_engine();
    let outs = run_graph_on(&mut engine, c).expect("if run");
    assert!(outs[0].equals(&DataValue::Null));
    let written: String = engine.stdout.iter().collect();
    // The print node hangs off no input edge, so the output drain
    // force-triggers it once as a dangling node, and the if-node then
    // drives it once more.
    assert_eq!(written, "side\nside\n");
}

#[test]
fn scoping_separates_equal_locals() {
    // The same local identifier lands on different scope-qualified
    // identifiers under different scopes, and never on itself.
    let a = convert_id(1, NodeId(5));
    let b = convert_id(2, NodeId(5));
    assert_ne!(a, b);
    assert_ne!(a, NodeId(5));
    assert_ne!(b, NodeId(5));
    // Rehashing is a function of scope and local identifier.
    assert_eq!(a, convert_id(1, NodeId(5)));
}

#[test]
fn invalid_console_bytes_are_utf8_error() {
    let c = Complex {
        inputs: Vec::new(),
        outputs: vec![DataType::String],
        end_node: NodeId(2),
        defaults: Vec::new(),
        instances: vec![
            (NodeId(1), inst(AtomicType::Io(AtomicIo::ConsoleInput), Vec::new(), 1)),
            (NodeId(2), inst(
                AtomicType::Control(ControlFlow::End),
                vec![edge(1, 0)],
                1,
            )),
        ],
    };
    let mut engine = Engine::create(Vec::new(), vec![0xFF, 0xFE, b'\n'], Vec::new(), Vec::new());
    // The console node fails on the bytes and closes; the sink sees it.
    assert!(matches!(run_graph_on(&mut engine, c), Err(EvalError::Closed)));
}

#[test]
fn recieve_without_reply_is_none() {
    // No scripted vendor reply: the last message is the user's own, and
    // a receive yields the absent value, not the user's message echoed.
    let mut engine = empty_engine();
    let c = Complex {
        inputs: Vec::new(),
        outputs: Vec::new(),
        end_node: NodeId(1),
        defaults: Vec::new(),
        instances: vec![(NodeId(1), inst(AtomicType::Control(ControlFlow::End), Vec::new(), 0))],
    };
    let tpl = engine.add_template(c);
    let s = engine.build_scope(tpl, None, 7, String::new(), true);
    let st = AgentType::OpenAi.create(agent_nodes::agent::AgentArgs {
        model: String::from("gpt"),
    });
    let id = engine.register_agent(s, st);
    engine.agent_send(s, id, &String::from("hello")).expect("send");
    let got = engine.agent_recieve(s, id).expect("recieve");
    assert_eq!(got, None);
}
