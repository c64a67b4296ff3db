use agent_nodes::value::{DataType, DataValue};
use agent_nodes::iobuf::IoBuffer;
use agent_nodes::strutil;
use agent_nodes::value::ArithmaticError;
use agent_nodes::display::display_string;
use agent_nodes::agent::{AgentArgs, AgentType, ChatBody, ChatMessage, ChatRole};

fn float_bits(x: f64) -> u64 {
    x.to_bits()
}

#[test]
fn add_integers() {
    let a = DataValue::Integer(2);
    let b = DataValue::Integer(3);
    match a.add(&b) {
        Ok(DataValue::Integer(v)) => assert_eq!(v, 5),
        other => panic!("unexpected {:?}", other),
    }
}

#[test]
fn add_strings_concatenates() {
    let a = DataValue::String(String::from("foo"));
    let b = DataValue::String(String::from("bar"));
    match a.add(&b) {
        Ok(DataValue::String(s)) => assert_eq!(s, "foobar"),
        other => panic!("unexpected {:?}", other),
    }
}

#[test]
fn add_string_coerces_integer() {
    let a = DataValue::String(String::from("n="));
    let b = DataValue::Integer(-7);
    match a.add(&b) {
        Ok(DataValue::String(s)) => assert_eq!(s, "n=-7"),
        other => panic!("unexpected {:?}", other),
    }
}

#[test]
fn add_floats() {
    let a = DataValue::Float(float_bits(1.5));
    let b = DataValue::Float(float_bits(2.25));
    match a.add(&b) {
        Ok(DataValue::Float(bits)) => assert_eq!(f64::from_bits(bits), 3.75),
        other => panic!("unexpected {:?}", other),
    }
}

#[test]
fn mixed_add_promotes_to_float() {
    let a = DataValue::Integer(1);
    let b = DataValue::Float(float_bits(0.5));
    match a.add(&b) {
        Ok(DataValue::Float(bits)) => assert_eq!(f64::from_bits(bits), 1.5),
        other => panic!("unexpected {:?}", other),
    }
}

#[test]
fn div_by_zero_integer_is_error() {
    let a = DataValue::Integer(10);
    let b = DataValue::Integer(0);
    assert!(matches!(a.div(&b), Err(ArithmaticError::DivByZero)));
    assert!(matches!(a.rem(&b), Err(ArithmaticError::DivByZero)));
}

#[test]
fn div_by_zero_float_is_error() {
    let a = DataValue::Float(float_bits(10.0));
    let z = DataValue::Float(float_bits(0.0));
    let nz = DataValue::Float(float_bits(-0.0));
    assert!(matches!(a.div(&z), Err(ArithmaticError::DivByZero)));
    assert!(matches!(a.div(&nz), Err(ArithmaticError::DivByZero)));
    let i = DataValue::Integer(3);
    assert!(matches!(i.div(&z), Err(ArithmaticError::DivByZero)));
    assert!(matches!(a.rem(&DataValue::Integer(0)), Err(ArithmaticError::DivByZero)));
}

#[test]
fn div_invalid_combo_is_error() {
    let a = DataValue::Boolean(true);
    let b = DataValue::Integer(1);
    assert!(matches!(a.div(&b), Err(ArithmaticError::InvalidCombo(_, _))));
}

#[test]
fn integer_division_truncates() {
    let a = DataValue::Integer(-7);
    let b = DataValue::Integer(2);
    match a.div(&b) {
        Ok(DataValue::Integer(v)) => assert_eq!(v, -3),
        other => panic!("unexpected {:?}", other),
    }
}

#[test]
fn pow_integers() {
    let a = DataValue::Integer(2);
    let b = DataValue::Integer(10);
    match a.pow(&b) {
        Ok(DataValue::Integer(v)) => assert_eq!(v, 1024),
        other => panic!("unexpected {:?}", other),
    }
}

#[test]
fn pow_negative_exponent_promotes() {
    let a = DataValue::Integer(2);
    let b = DataValue::Integer(-1);
    match a.pow(&b) {
        Ok(DataValue::Float(bits)) => assert_eq!(f64::from_bits(bits), 0.5),
        other => panic!("unexpected {:?}", other),
    }
}

#[test]
fn cast_float_truncates_toward_zero() {
    let v = DataValue::Float(float_bits(2.9));
    match v.try_cast(DataType::Integer) {
        Ok(DataValue::Integer(i)) => assert_eq!(i, 2),
        other => panic!("unexpected {:?}", other),
    }
    let v = DataValue::Float(float_bits(-2.9));
    match v.try_cast(DataType::Integer) {
        Ok(DataValue::Integer(i)) => assert_eq!(i, -2),
        other => panic!("unexpected {:?}", other),
    }
}

#[test]
fn cast_none_to_boolean_is_false() {
    let v = DataValue::Null;
    match v.try_cast(DataType::Boolean) {
        Ok(DataValue::Boolean(b)) => assert!(!b),
        other => panic!("unexpected {:?}", other),
    }
}

#[test]
fn cast_integer_to_float() {
    let v = DataValue::Integer(4);
    match v.try_cast(DataType::Float) {
        Ok(DataValue::Float(bits)) => assert_eq!(f64::from_bits(bits), 4.0),
        other => panic!("unexpected {:?}", other),
    }
}

#[test]
fn cast_invalid_pair_fails_with_types() {
    let v = DataValue::Boolean(true);
    match v.try_cast(DataType::Handle) {
        Err((from, to)) => {
            assert_eq!(from, DataType::Boolean);
            assert_eq!(to, DataType::Handle);
        },
        other => panic!("unexpected {:?}", other),
    }
}

#[test]
fn equality_is_structural() {
    let a = DataValue::Array(vec![DataValue::Integer(1), DataValue::String(String::from("x"))]);
    let b = DataValue::Array(vec![DataValue::Integer(1), DataValue::String(String::from("x"))]);
    let c = DataValue::Array(vec![DataValue::Integer(2), DataValue::String(String::from("x"))]);
    assert!(a.equals(&b));
    assert!(!a.equals(&c));
    assert!(DataValue::Null.equals(&DataValue::Null));
    assert!(!DataValue::Null.equals(&DataValue::Integer(0)));
}

#[test]
fn display_forms() {
    assert_eq!(display_string(&DataValue::Integer(-42)), "-42");
    assert_eq!(display_string(&DataValue::Boolean(true)), "true");
    assert_eq!(display_string(&DataValue::Byte(10)), "0a");
    assert_eq!(display_string(&DataValue::Null), "");
    assert_eq!(
        display_string(&DataValue::Array(vec![DataValue::Integer(1), DataValue::Null])),
        "[1,null]"
    );
    assert_eq!(
        display_string(&DataValue::String(String::from("plain"))),
        "plain"
    );
}

#[test]
fn uuid_rendering() {
    let n: u128 = 0x0123456789abcdef0123456789abcdef;
    assert_eq!(
        strutil::uuid_to_string(n),
        "01234567-89ab-cdef-0123-456789abcdef"
    );
}

#[test]
fn decimal_rendering() {
    assert_eq!(strutil::i64_to_string(0), "0");
    assert_eq!(strutil::i64_to_string(-120), "-120");
    assert_eq!(strutil::u64_to_string(98765), "98765");
    assert_eq!(strutil::byte_to_hex(255), "ff");
}

#[test]
fn read_zero_bytes_consumes_nothing() {
    let mut buf = IoBuffer::over(vec![1, 2, 3]);
    let got = buf.read_bytes(0);
    assert!(got.is_empty());
    assert_eq!(buf.pos, 0);
    let got = buf.read_bytes(2);
    assert_eq!(got, vec![1, 2]);
    assert_eq!(buf.pos, 2);
}

#[test]
fn read_until_empty_pattern_consumes_nothing() {
    let mut buf = IoBuffer::over(vec![1, 2, 3]);
    let got = buf.read_until(&Vec::new());
    assert!(got.is_empty());
    assert_eq!(buf.pos, 0);
}

#[test]
fn read_until_pattern_inclusive() {
    let mut buf = IoBuffer::over(b"hi\nrest".to_vec());
    let got = buf.read_until(&vec![b'\n']);
    assert_eq!(got, b"hi\n".to_vec());
    assert_eq!(buf.pos, 3);
}

#[test]
fn read_until_missing_pattern_reads_all() {
    let mut buf = IoBuffer::over(b"abc".to_vec());
    let got = buf.read_until(&vec![b'x']);
    assert_eq!(got, b"abc".to_vec());
    assert_eq!(buf.pos, 3);
}

#[test]
fn write_appends() {
    let mut buf = IoBuffer::over(Vec::new());
    buf.write_bytes(&b"one".to_vec());
    buf.write_bytes(&b"two".to_vec());
    assert_eq!(buf.written, b"onetwo".to_vec());
}

#[test]
fn agent_create_and_content() {
    let st = AgentType::OpenAi.create(AgentArgs { model: String::from("gpt") });
    assert_eq!(st.model, "gpt");
    assert!(st.messages.is_empty());
    let body = ChatBody::OpenAi(ChatMessage {
        role: ChatRole::User,
        content: Some(String::from("hello")),
    });
    assert_eq!(body.get_content(), Some(String::from("hello")));
}

#[test]
fn float_display_is_decimal() {
    let s = display_string(&DataValue::Float((2.5f64).to_bits()));
    assert_eq!(s, "2.5");
}

#[test]
fn pow_fractional_float_exponent_is_unsupported() {
    // The engine has no float power primitive, so a fractional exponent
    // is the distinct unsupported-exponent failure rather than a wrong
    // answer or a silent invalid-combination.
    let b = DataValue::Float(float_bits(2.0));
    let e = DataValue::Float(float_bits(0.5));
    assert!(matches!(b.pow(&e), Err(ArithmaticError::UnsupportedExponent(_, _))));
    let ib = DataValue::Integer(2);
    assert!(matches!(ib.pow(&e), Err(ArithmaticError::UnsupportedExponent(_, _))));
    // An integer-valued float exponent still computes the float power.
    let e2 = DataValue::Float(float_bits(3.0));
    match b.pow(&e2) {
        Ok(DataValue::Float(bits)) => assert_eq!(f64::from_bits(bits), 8.0),
        other => panic!("unexpected {:?}", other),
    }
}

#[test]
fn object_equality_is_key_based() {
    let pair = |k: &str, v: i64| (String::from(k), DataValue::Integer(v));
    let ab = DataValue::Object(vec![pair("a", 1), pair("b", 2)]);
    let ba = DataValue::Object(vec![pair("b", 2), pair("a", 1)]);
    let ab9 = DataValue::Object(vec![pair("a", 1), pair("b", 9)]);
    let a_only = DataValue::Object(vec![pair("a", 1)]);
    // A mapping compares by its bindings, not by entry order.
    assert!(ab.equals(&ba));
    assert!(!ab.equals(&ab9));
    assert!(!ab.equals(&a_only));
    // A shadowed duplicate does not change the effective mapping.
    let shadowed = DataValue::Object(vec![pair("a", 1), pair("a", 9)]);
    assert!(shadowed.equals(&a_only));
}
