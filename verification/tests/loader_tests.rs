use agent_nodes::loader::{
    Cursor, atomic_from_json, data_type_from_json, edge_from_json, node_id_from_json,
    node_type_from_json, parse_complex, types_from_json,
};

fn val(s: &str) -> agent_nodes::loader::Json {
    let mut c = Cursor { cs: s.chars().collect(), pos: 0 };
    c.parse_value(100).expect("json")
}

#[test]
fn serialized_forms_parse() {
    assert!(data_type_from_json(&val("\"String\"")).is_some(), "dtype");
    assert!(node_id_from_json(&val("\"00000000000000000000000000000001\"")).is_some(), "nid");
    assert!(types_from_json(&val("[\"Handle\"]")).is_some(), "types");
    assert!(atomic_from_json(&val("{\"Io\": {\"Open\": \"File\"}}")).is_some(), "atomic io");
    assert!(node_type_from_json(&val("{\"Atomic\": {\"Io\": \"GetLine\"}}")).is_some(), "ntype");
    assert!(
        edge_from_json(&val("[\"String\", \"00000000000000000000000000000001\", 0, true]"))
            .is_some(),
        "edge"
    );
}

#[test]
fn float_values_parse_to_ieee_bits() {
    let j = val("2.5");
    match j {
        agent_nodes::loader::Json::JFloat(bits) => assert_eq!(bits, (2.5f64).to_bits()),
        other => panic!("not a float: {:?}", matches!(other, agent_nodes::loader::Json::JNull)),
    }
}

#[test]
fn unicode_escapes_decode() {
    let j = val("\"A\\u0042C\"");
    match j {
        agent_nodes::loader::Json::JStr(s) => assert_eq!(s, "ABC"),
        other => panic!("not a string: {:?}", matches!(other, agent_nodes::loader::Json::JNull)),
    }
}

#[test]
fn unresolved_edge_source_is_rejected() {
    let doc = r#"{
        "inputs": [],
        "outputs": ["Integer"],
        "end_node": "00000000000000000000000000000001",
        "defaults": {},
        "instances": {
            "00000000000000000000000000000001": {
                "node_type": {"Atomic": {"Control": "End"}},
                "default_overrides": {},
                "outputs": ["Integer"],
                "inputs": [["Integer", "000000000000000000000000000000ff", 0, true]]
            }
        }
    }"#;
    match parse_complex(doc) {
        Err(e) => assert_eq!(e, "unresolved edge source"),
        Ok(_) => panic!("a dangling edge source must not load"),
    }
}
