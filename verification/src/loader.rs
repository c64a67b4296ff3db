//! Loading a sub-graph from its serialized form: a JSON document with
//! the boundary types, the sink node, named defaults, and the instances
//! keyed by local identifier. The grammar is parsed by recursive
//! descent over the characters; identifiers are the canonical
//! hyphenated form (hyphens optional).
use vstd::prelude::*;
use crate::agent::AgentType;
use crate::ids::NodeId;
use crate::nodes::{
    AgentAction, AtomicBinOp, AtomicIo, AtomicLogic, AtomicType, AtomicUnaryOp, Complex,
    ControlFlow, InputEdge, Instance, IoType, NodeType, VarAction,
};
use crate::strutil::chars_to_string;
use crate::value::{DataType, DataValue};

verus! {

/// A parsed JSON document.
pub enum Json {
    JNull,
    JBool(bool),
    JInt(i64),
    JFloat(u64),
    JStr(String),
    JArr(Vec<Json>),
    JObj(Vec<(String, Json)>),
}

/// Relies on `char::from_u32`: the conversion succeeds exactly on the
/// Unicode scalar values — everything up to the supplementary planes
/// except the surrogate range — and yields the character with that code.
pub assume_specification[ char::from_u32 ](v: u32) -> (r: Option<char>)
    ensures
        (r is Some) == (v < 0xD800 || (0xE000 <= v && v <= 0x10FFFF)),
        r matches Some(c) ==> c as u32 == v,
;

/// The numeric value of a hexadecimal digit, if the character is one.
pub fn hex_val(c: char) -> (r: Option<u8>)
    ensures
        r matches Some(d) ==> d < 16,
{
    if c >= '0' && c <= '9' {
        Some((c as u8) - 48)
    } else if c >= 'a' && c <= 'f' {
        Some((c as u8) - 87)
    } else if c >= 'A' && c <= 'F' {
        Some((c as u8) - 55)
    } else {
        Option::None
    }
}

/// Sixteen raised to a power.
pub open spec fn p16(n: nat) -> int
    decreases n,
{
    if n == 0 {
        1
    } else {
        16 * p16((n - 1) as nat)
    }
}

/// Sixteen's powers grow with the exponent.
pub proof fn lemma_p16_le(a: nat, b: nat)
    requires
        a <= b,
    ensures
        p16(a) <= p16(b),
    decreases b,
{
    if a < b {
        lemma_p16_le(a, (b - 1) as nat);
        assert(p16((b - 1) as nat) >= 1) by {
            lemma_p16_pos((b - 1) as nat);
        }
    }
}

/// Sixteen's powers are positive.
pub proof fn lemma_p16_pos(n: nat)
    ensures
        p16(n) >= 1,
    decreases n,
{
    if n > 0 {
        lemma_p16_pos((n - 1) as nat);
    }
}

/// Parses an identifier written as 32 hexadecimal digits, with hyphens
/// allowed anywhere between them.
#[verifier::loop_isolation(false)]
pub fn uuid_from_chars(cs: &Vec<char>) -> (r: Option<u128>)
{
    let mut acc: u128 = 0;
    let mut digits: u64 = 0;
    let mut i: usize = 0;
    while i < cs.len()
        invariant
            i <= cs@.len(),
            digits <= 32,
            acc < p16(digits as nat),
        decreases cs@.len() - i,
    {
        let c = cs[i];
        if c == '-' {
            i = i + 1;
        } else {
            match hex_val(c) {
                Some(d) => {
                    if digits >= 32 {
                        return Option::None;
                    }
                    proof {
                        lemma_p16_le(digits as nat, 31);
                        assert(p16(31) == 0x10000000000000000000000000000000) by {
                            reveal_with_fuel(p16, 33);
                        }
                        assert(p16((digits + 1) as nat) == 16 * p16(digits as nat));
                    }
                    acc = acc * 16 + (d as u128);
                    digits = digits + 1;
                    i = i + 1;
                },
                None => {
                    return Option::None;
                },
            }
        }
    }
    if digits == 32 {
        Some(acc)
    } else {
        Option::None
    }
}

/// A cursor over the characters being parsed.
pub struct Cursor {
    pub cs: Vec<char>,
    pub pos: usize,
}

/// The cursor never passes the end of its characters.
pub open spec fn cursor_wf(c: Cursor) -> bool {
    c.pos <= c.cs@.len()
}

impl Cursor {
    /// Skips blanks, tabs and line breaks.
    pub fn skip_ws(&mut self)
        requires
            cursor_wf(*old(self)),
        ensures
            cursor_wf(*final(self)),
            final(self).cs@ == old(self).cs@,
    {
        while self.pos < self.cs.len()
            invariant
                cursor_wf(*self),
                self.cs@ == old(self).cs@,
            decreases self.cs@.len() - self.pos,
        {
            let c = self.cs[self.pos];
            if c == ' ' || c == '\t' || c == '\n' || c == '\r' {
                self.pos = self.pos + 1;
            } else {
                return ;
            }
        }
    }

    /// The next character, if any.
    pub fn peek(&self) -> (r: Option<char>)
        ensures
            r == (if self.pos < self.cs@.len() {
                Some(self.cs@[self.pos as int])
            } else {
                Option::<char>::None
            }),
    {
        if self.pos < self.cs.len() {
            Some(self.cs[self.pos])
        } else {
            Option::None
        }
    }

    /// Consumes one expected character after whitespace.
    pub fn expect(&mut self, c: char) -> (r: bool)
        requires
            cursor_wf(*old(self)),
        ensures
            cursor_wf(*final(self)),
            final(self).cs@ == old(self).cs@,
    {
        self.skip_ws();
        if self.pos < self.cs.len() && self.cs[self.pos] == c {
            self.pos = self.pos + 1;
            true
        } else {
            false
        }
    }

    /// Parses a JSON string body after its opening quote.
    #[verifier::loop_isolation(false)]
    pub fn parse_string_body(&mut self) -> (r: Option<String>)
        requires
            cursor_wf(*old(self)),
        ensures
            cursor_wf(*final(self)),
            final(self).cs@ == old(self).cs@,
    {
        let mut out: Vec<char> = Vec::new();
        while self.pos < self.cs.len()
            invariant
                cursor_wf(*self),
                self.cs@ == old(self).cs@,
            decreases self.cs@.len() - self.pos,
        {
            let c = self.cs[self.pos];
            self.pos = self.pos + 1;
            if c == '"' {
                return Some(chars_to_string(&out));
            }
            if c == '\\' {
                if self.pos >= self.cs.len() {
                    return Option::None;
                }
                let e = self.cs[self.pos];
                self.pos = self.pos + 1;
                if e == '"' {
                    out.push('"');
                } else if e == '\\' {
                    out.push('\\');
                } else if e == '/' {
                    out.push('/');
                } else if e == 'n' {
                    out.push('\n');
                } else if e == 'r' {
                    out.push('\r');
                } else if e == 't' {
                    out.push('\t');
                } else if e == 'b' {
                    out.push(8u8 as char);
                } else if e == 'f' {
                    out.push(12u8 as char);
                } else if e == 'u' {
                    if self.cs.len() < 4 || self.pos > self.cs.len() - 4 {
                        return Option::None;
                    }
                    let upos = self.pos;
                    let mut code: u32 = 0;
                    let mut k: usize = 0;
                    while k < 4
                        invariant
                            self.cs@ == old(self).cs@,
                            self.pos == upos + k,
                            upos + 4 <= self.cs@.len(),
                            self.pos <= self.cs@.len(),
                            code < 0x10000,
                        decreases 4 - k,
                    {
                        if self.pos >= self.cs.len() {
                            return Option::None;
                        }
                        match hex_val(self.cs[self.pos]) {
                            Some(d) => {
                                code = (code % 0x1000) * 16 + (d as u32);
                            },
                            None => {
                                return Option::None;
                            },
                        }
                        self.pos = self.pos + 1;
                        k = k + 1;
                    }
                    if code >= 0xD800 && code < 0xE000 {
                        return Option::None;
                    }
                    match char::from_u32(code) {
                        Some(ch) => {
                            out.push(ch);
                        },
                        None => {
                            return Option::None;
                        },
                    }
                } else {
                    return Option::None;
                }
            } else {
                out.push(c);
            }
        }
        Option::None
    }

    /// Parses a JSON number: wrapping decimal accumulation for an
    /// integer; the float path goes through the IEEE decimal parser.
    #[verifier::loop_isolation(false)]
    pub fn parse_number(&mut self) -> (r: Option<Json>)
        requires
            cursor_wf(*old(self)),
        ensures
            cursor_wf(*final(self)),
            final(self).cs@ == old(self).cs@,
    {
        let start = self.pos;
        let mut is_float = false;
        if self.pos < self.cs.len() && self.cs[self.pos] == '-' {
            self.pos = self.pos + 1;
        }
        while self.pos < self.cs.len()
            invariant
                cursor_wf(*self),
                self.cs@ == old(self).cs@,
                start <= self.pos,
            decreases self.cs@.len() - self.pos,
        {
            let c = self.cs[self.pos];
            if c >= '0' && c <= '9' {
                self.pos = self.pos + 1;
            } else if c == '.' || c == 'e' || c == 'E' || c == '+' || c == '-' {
                is_float = true;
                self.pos = self.pos + 1;
            } else {
                break;
            }
        }
        if self.pos == start {
            return Option::None;
        }
        let mut text: Vec<char> = Vec::new();
        let mut k: usize = start;
        while k < self.pos
            invariant
                cursor_wf(*self),
                self.cs@ == old(self).cs@,
                self.pos <= self.cs@.len(),
                start <= k <= self.pos,
            decreases self.pos - k,
        {
            text.push(self.cs[k]);
            k = k + 1;
        }
        if is_float {
            match crate::float_ops::float_from_decimal(chars_to_string(&text).as_str()) {
                Some(bits) => Some(Json::JFloat(bits)),
                None => Option::None,
            }
        } else {
            let mut acc: i64 = 0;
            let mut neg = false;
            let mut k2: usize = 0;
            while k2 < text.len()
                invariant
                    k2 <= text@.len(),
                decreases text@.len() - k2,
            {
                let c = text[k2];
                if c == '-' {
                    neg = true;
                } else {
                    let d = ((c as u32) % 0x100) as i64 - 48;
                    if d >= 0 && d <= 9 {
                        acc = acc.wrapping_mul(10).wrapping_add(d);
                    }
                }
                k2 = k2 + 1;
            }
            if neg {
                acc = acc.wrapping_mul(-1);
            }
            Some(Json::JInt(acc))
        }
    }

    /// Parses one JSON value; the fuel bounds nesting depth.
    pub fn parse_value(&mut self, fuel: u64) -> (r: Option<Json>)
        requires
            cursor_wf(*old(self)),
        ensures
            cursor_wf(*final(self)),
            final(self).cs@ == old(self).cs@,
        decreases fuel,
    {
        if fuel == 0 {
            return Option::None;
        }
        self.skip_ws();
        let c = match self.peek() {
            Some(c) => c,
            None => {
                return Option::None;
            },
        };
        if c == '"' {
            if self.pos < self.cs.len() {
                self.pos = self.pos + 1;
            }
            match self.parse_string_body() {
                Some(s) => Some(Json::JStr(s)),
                None => Option::None,
            }
        } else if c == '{' {
            if self.pos < self.cs.len() {
                self.pos = self.pos + 1;
            }
            let mut entries: Vec<(String, Json)> = Vec::new();
            self.skip_ws();
            let early_close = match self.peek() {
                Some(ch) => ch == '}',
                None => false,
            };
            if early_close {
                if self.pos < self.cs.len() {
                    self.pos = self.pos + 1;
                }
                return Some(Json::JObj(entries));
            }
            loop
                invariant
                    cursor_wf(*self),
                    self.cs@ == old(self).cs@,
                    fuel >= 1,
                decreases self.cs@.len() - self.pos,
            {
                let before = self.pos;
                if !self.expect('"') {
                    return Option::None;
                }
                let key = match self.parse_string_body() {
                    Some(k) => k,
                    None => {
                        return Option::None;
                    },
                };
                if !self.expect(':') {
                    return Option::None;
                }
                let v = match self.parse_value(fuel - 1) {
                    Some(v) => v,
                    None => {
                        return Option::None;
                    },
                };
                entries.push((key, v));
                self.skip_ws();
                let comma = match self.peek() {
                    Some(ch) => ch == ',',
                    None => false,
                };
                if comma {
                    if self.pos < self.cs.len() {
                        self.pos = self.pos + 1;
                    }
                } else {
                    break;
                }
                if self.pos > self.cs.len() {
                    return Option::None;
                }
                if self.pos <= before {
                    return Option::None;
                }
            }
            if !self.expect('}') {
                return Option::None;
            }
            Some(Json::JObj(entries))
        } else if c == '[' {
            if self.pos < self.cs.len() {
                self.pos = self.pos + 1;
            }
            let mut items: Vec<Json> = Vec::new();
            self.skip_ws();
            let early_close = match self.peek() {
                Some(ch) => ch == ']',
                None => false,
            };
            if early_close {
                if self.pos < self.cs.len() {
                    self.pos = self.pos + 1;
                }
                return Some(Json::JArr(items));
            }
            loop
                invariant
                    cursor_wf(*self),
                    self.cs@ == old(self).cs@,
                    fuel >= 1,
                decreases self.cs@.len() - self.pos,
            {
                let before = self.pos;
                let v = match self.parse_value(fuel - 1) {
                    Some(v) => v,
                    None => {
                        return Option::None;
                    },
                };
                items.push(v);
                self.skip_ws();
                let comma = match self.peek() {
                    Some(ch) => ch == ',',
                    None => false,
                };
                if comma {
                    if self.pos < self.cs.len() {
                        self.pos = self.pos + 1;
                    }
                } else {
                    break;
                }
                if self.pos > self.cs.len() {
                    return Option::None;
                }
                if self.pos <= before {
                    return Option::None;
                }
            }
            if !self.expect(']') {
                return Option::None;
            }
            Some(Json::JArr(items))
        } else if c == 't' {
            if self.match_word("true") {
                Some(Json::JBool(true))
            } else {
                Option::None
            }
        } else if c == 'f' {
            if self.match_word("false") {
                Some(Json::JBool(false))
            } else {
                Option::None
            }
        } else if c == 'n' {
            if self.match_word("null") {
                Some(Json::JNull)
            } else {
                Option::None
            }
        } else {
            self.parse_number()
        }
    }

    /// Consumes a literal word.
    #[verifier::loop_isolation(false)]
    pub fn match_word(&mut self, w: &str) -> (r: bool)
        requires
            cursor_wf(*old(self)),
        ensures
            cursor_wf(*final(self)),
            final(self).cs@ == old(self).cs@,
    {
        let wc = crate::strutil::str_chars(w);
        let mut k: usize = 0;
        while k < wc.len()
            invariant
                cursor_wf(*self),
                self.cs@ == old(self).cs@,
                k <= wc@.len(),
            decreases wc@.len() - k,
        {
            if self.pos >= self.cs.len() {
                return false;
            }
            if self.cs[self.pos] != wc[k] {
                return false;
            }
            self.pos = self.pos + 1;
            k = k + 1;
        }
        true
    }
}

/// The value bound to a key in a parsed object, by reference.
#[verifier::loop_isolation(false)]
pub fn obj_get<'a>(entries: &'a Vec<(String, Json)>, key: &str) -> (r: Option<&'a Json>)
{
    let mut i: usize = 0;
    while i < entries.len()
        invariant
            i <= entries@.len(),
        decreases entries@.len() - i,
    {
        if entries[i].0.as_str() == key {
            return Some(&entries[i].1);
        }
        i = i + 1;
    }
    Option::None
}

/// A data type from its serialized form: a bare tag name, or an object
/// with the `Agent` tag and its kind.
pub fn data_type_from_json(j: &Json) -> (r: Option<DataType>)
{
    match j {
        Json::JStr(s) => {
            let t = s.as_str();
            if t == "Array" {
                Some(DataType::Array)
            } else if t == "String" {
                Some(DataType::String)
            } else if t == "Integer" {
                Some(DataType::Integer)
            } else if t == "Float" {
                Some(DataType::Float)
            } else if t == "Boolean" {
                Some(DataType::Boolean)
            } else if t == "Byte" {
                Some(DataType::Byte)
            } else if t == "Handle" {
                Some(DataType::Handle)
            } else if t == "Object" {
                Some(DataType::Object)
            } else if t == "None" {
                Some(DataType::Null)
            } else {
                Option::None
            }
        },
        Json::JObj(entries) => {
            match obj_get(entries, "Agent") {
                Some(Json::JStr(kind)) => {
                    match agent_type_from_name(kind.as_str()) {
                        Some(k) => Some(DataType::Agent(k)),
                        None => Option::None,
                    }
                },
                _ => Option::None,
            }
        },
        _ => Option::None,
    }
}

/// An agent kind from its name.
pub fn agent_type_from_name(s: &str) -> (r: Option<AgentType>)
{
    if s == "OpenAi" {
        Some(AgentType::OpenAi)
    } else if s == "OpenRouter" {
        Some(AgentType::OpenRouter)
    } else {
        Option::None
    }
}

/// A runtime value from its serialized form: strings, numbers, booleans,
/// arrays, objects and null map to their value kinds.
#[verifier::loop_isolation(false)]
pub fn data_value_from_json(j: &Json, fuel: u64) -> (r: Option<DataValue>)
    decreases fuel,
{
    if fuel == 0 {
        return Option::None;
    }
    match j {
        Json::JNull => Some(DataValue::Null),
        Json::JBool(b) => Some(DataValue::Boolean(*b)),
        Json::JInt(i) => Some(DataValue::Integer(*i)),
        Json::JFloat(bits) => Some(DataValue::Float(*bits)),
        Json::JStr(s) => Some(DataValue::String(s.clone())),
        Json::JArr(items) => {
            let mut out: Vec<DataValue> = Vec::new();
            let mut i: usize = 0;
            while i < items.len()
                invariant
                    i <= items@.len(),
                    fuel >= 1,
                decreases items@.len() - i,
            {
                proof {
                    assert(decreases_to!(*j => *items));
                    assert(decreases_to!(*items => items@));
                    assert(decreases_to!(items@ => items@[i as int]));
                }
                match data_value_from_json(&items[i], fuel - 1) {
                    Some(v) => {
                        out.push(v);
                    },
                    None => {
                        return Option::None;
                    },
                }
                i = i + 1;
            }
            Some(DataValue::Array(out))
        },
        Json::JObj(entries) => {
            let mut out: Vec<(String, DataValue)> = Vec::new();
            let mut i: usize = 0;
            while i < entries.len()
                invariant
                    i <= entries@.len(),
                    fuel >= 1,
                decreases entries@.len() - i,
            {
                match data_value_from_json(&entries[i].1, fuel - 1) {
                    Some(v) => {
                        out.push((entries[i].0.clone(), v));
                    },
                    None => {
                        return Option::None;
                    },
                }
                i = i + 1;
            }
            Some(DataValue::Object(out))
        },
    }
}

/// An identifier from its serialized string form.
pub fn node_id_from_json(j: &Json) -> (r: Option<NodeId>)
{
    match j {
        Json::JStr(s) => {
            let cs = crate::strutil::str_chars(s.as_str());
            match uuid_from_chars(&cs) {
                Some(u) => Some(NodeId(u)),
                None => Option::None,
            }
        },
        _ => Option::None,
    }
}

/// An input edge from its serialized four-element form: declared type,
/// source identifier, source port, and the strong flag.
pub fn edge_from_json(j: &Json) -> (r: Option<InputEdge>)
{
    match j {
        Json::JArr(items) => {
            if items.len() != 4 {
                return Option::None;
            }
            let ty = match data_type_from_json(&items[0]) {
                Some(t) => t,
                None => {
                    return Option::None;
                },
            };
            let src = match node_id_from_json(&items[1]) {
                Some(s) => s,
                None => {
                    return Option::None;
                },
            };
            let port: usize = match &items[2] {
                Json::JInt(p) => {
                    if *p < 0 {
                        return Option::None;
                    }
                    if (*p as u64) > (usize::MAX as u64) {
                        return Option::None;
                    }
                    *p as usize
                },
                _ => {
                    return Option::None;
                },
            };
            let strong: bool = match &items[3] {
                Json::JBool(b) => *b,
                _ => {
                    return Option::None;
                },
            };
            Some(InputEdge { ty, src, port, strong })
        },
        _ => Option::None,
    }
}

/// An atomic operation from its serialized form.
pub fn atomic_from_json(j: &Json) -> (r: Option<AtomicType>)
{
    match j {
        Json::JStr(s) => {
            let t = s.as_str();
            if t == "Print" {
                Some(AtomicType::Print)
            } else if t == "Replace" {
                Some(AtomicType::Replace)
            } else if t == "IsNone" {
                Some(AtomicType::IsNone)
            } else {
                Option::None
            }
        },
        Json::JObj(entries) => {
            if let Some(v) = obj_get(entries, "BinOp") {
                match v {
                    Json::JStr(n) => {
                        let t = n.as_str();
                        let op = if t == "Add" {
                            AtomicBinOp::Add
                        } else if t == "Sub" {
                            AtomicBinOp::Sub
                        } else if t == "Mul" {
                            AtomicBinOp::Mul
                        } else if t == "Div" {
                            AtomicBinOp::Div
                        } else if t == "Pow" {
                            AtomicBinOp::Pow
                        } else if t == "Mod" {
                            AtomicBinOp::Mod
                        } else {
                            return Option::None;
                        };
                        return Some(AtomicType::BinOp(op));
                    },
                    _ => {
                        return Option::None;
                    },
                }
            }
            if let Some(v) = obj_get(entries, "UnaryOp") {
                match v {
                    Json::JStr(n) => {
                        if n.as_str() == "Neg" {
                            return Some(AtomicType::UnaryOp(AtomicUnaryOp::Neg));
                        }
                        return Option::None;
                    },
                    _ => {
                        return Option::None;
                    },
                }
            }
            if let Some(v) = obj_get(entries, "Value") {
                match data_value_from_json(v, 64) {
                    Some(d) => {
                        return Some(AtomicType::Value(d));
                    },
                    None => {
                        return Option::None;
                    },
                }
            }
            if let Some(v) = obj_get(entries, "Control") {
                match control_from_json(v) {
                    Some(c) => {
                        return Some(AtomicType::Control(c));
                    },
                    None => {
                        return Option::None;
                    },
                }
            }
            if let Some(v) = obj_get(entries, "Variable") {
                match v {
                    Json::JArr(items) => {
                        if items.len() != 2 {
                            return Option::None;
                        }
                        let action = match &items[0] {
                            Json::JStr(a) => {
                                if a.as_str() == "Set" {
                                    VarAction::Store
                                } else if a.as_str() == "Get" {
                                    VarAction::Get
                                } else {
                                    return Option::None;
                                }
                            },
                            _ => {
                                return Option::None;
                            },
                        };
                        let name = match &items[1] {
                            Json::JStr(n) => n.clone(),
                            _ => {
                                return Option::None;
                            },
                        };
                        return Some(AtomicType::Variable(action, name));
                    },
                    _ => {
                        return Option::None;
                    },
                }
            }
            if let Some(v) = obj_get(entries, "Io") {
                match io_from_json(v) {
                    Some(io) => {
                        return Some(AtomicType::Io(io));
                    },
                    None => {
                        return Option::None;
                    },
                }
            }
            if let Some(v) = obj_get(entries, "Cast") {
                match data_type_from_json(v) {
                    Some(t) => {
                        return Some(AtomicType::Cast(t));
                    },
                    None => {
                        return Option::None;
                    },
                }
            }
            if let Some(v) = obj_get(entries, "LogicalOp") {
                match v {
                    Json::JStr(n) => {
                        let t = n.as_str();
                        let op = if t == "And" {
                            AtomicLogic::And
                        } else if t == "Or" {
                            AtomicLogic::Or
                        } else if t == "Xor" {
                            AtomicLogic::Xor
                        } else if t == "Not" {
                            AtomicLogic::Not
                        } else if t == "Eq" {
                            AtomicLogic::Eq
                        } else {
                            return Option::None;
                        };
                        return Some(AtomicType::LogicalOp(op));
                    },
                    _ => {
                        return Option::None;
                    },
                }
            }
            if let Some(v) = obj_get(entries, "AgentOp") {
                match v {
                    Json::JStr(n) => {
                        if n.as_str() == "Send" {
                            return Some(AtomicType::AgentOp(AgentAction::Send));
                        }
                        if n.as_str() == "Recieve" {
                            return Some(AtomicType::AgentOp(AgentAction::Recieve));
                        }
                        return Option::None;
                    },
                    Json::JObj(inner) => {
                        match obj_get(inner, "Create") {
                            Some(Json::JStr(kind)) => {
                                match agent_type_from_name(kind.as_str()) {
                                    Some(k) => {
                                        return Some(
                                            AtomicType::AgentOp(AgentAction::Create(k)),
                                        );
                                    },
                                    None => {
                                        return Option::None;
                                    },
                                }
                            },
                            _ => {
                                return Option::None;
                            },
                        }
                    },
                    _ => {
                        return Option::None;
                    },
                }
            }
            Option::None
        },
        _ => Option::None,
    }
}

/// A control-flow operation from its serialized form.
pub fn control_from_json(j: &Json) -> (r: Option<ControlFlow>)
{
    match j {
        Json::JStr(s) => {
            if s.as_str() == "Start" {
                Some(ControlFlow::Start)
            } else if s.as_str() == "End" {
                Some(ControlFlow::End)
            } else {
                Option::None
            }
        },
        Json::JObj(entries) => {
            if let Some(v) = obj_get(entries, "If") {
                match edge_from_json(v) {
                    Some(e) => {
                        return Some(ControlFlow::If(e));
                    },
                    None => {
                        return Option::None;
                    },
                }
            }
            if let Some(v) = obj_get(entries, "While") {
                match edge_from_json(v) {
                    Some(e) => {
                        return Some(ControlFlow::While(e));
                    },
                    None => {
                        return Option::None;
                    },
                }
            }
            if let Some(v) = obj_get(entries, "WaitForInit") {
                match edge_from_json(v) {
                    Some(e) => {
                        return Some(ControlFlow::WaitForInit(e));
                    },
                    None => {
                        return Option::None;
                    },
                }
            }
            Option::None
        },
        _ => Option::None,
    }
}

/// An I/O operation from its serialized form.
pub fn io_from_json(j: &Json) -> (r: Option<AtomicIo>)
{
    match j {
        Json::JStr(s) => {
            if s.as_str() == "Read" {
                Some(AtomicIo::Read)
            } else if s.as_str() == "Write" {
                Some(AtomicIo::Write)
            } else if s.as_str() == "GetLine" {
                Some(AtomicIo::GetLine)
            } else if s.as_str() == "ConsoleInput" {
                Some(AtomicIo::ConsoleInput)
            } else {
                Option::None
            }
        },
        Json::JObj(entries) => {
            match obj_get(entries, "Open") {
                Some(Json::JStr(kind)) => {
                    if kind.as_str() == "File" {
                        Some(AtomicIo::Open(IoType::File))
                    } else if kind.as_str() == "TcpSocket" {
                        Some(AtomicIo::Open(IoType::TcpSocket))
                    } else {
                        Option::None
                    }
                },
                _ => Option::None,
            }
        },
        _ => Option::None,
    }
}

/// A node's operation from its serialized form.
pub fn node_type_from_json(j: &Json) -> (r: Option<NodeType>)
{
    match j {
        Json::JObj(entries) => {
            if let Some(v) = obj_get(entries, "Atomic") {
                match atomic_from_json(v) {
                    Some(a) => {
                        return Some(NodeType::Atomic(a));
                    },
                    None => {
                        return Option::None;
                    },
                }
            }
            if let Some(v) = obj_get(entries, "Complex") {
                match v {
                    Json::JStr(p) => {
                        return Some(NodeType::Complex(p.clone()));
                    },
                    _ => {
                        return Option::None;
                    },
                }
            }
            Option::None
        },
        _ => Option::None,
    }
}

/// A list of data types from a serialized array.
#[verifier::loop_isolation(false)]
pub fn types_from_json(j: &Json) -> (r: Option<Vec<DataType>>)
{
    match j {
        Json::JArr(items) => {
            let mut out: Vec<DataType> = Vec::new();
            let mut i: usize = 0;
            while i < items.len()
                invariant
                    i <= items@.len(),
                decreases items@.len() - i,
            {
                match data_type_from_json(&items[i]) {
                    Some(t) => {
                        out.push(t);
                    },
                    None => {
                        return Option::None;
                    },
                }
                i = i + 1;
            }
            Some(out)
        },
        _ => Option::None,
    }
}

/// Named default values from a serialized object.
#[verifier::loop_isolation(false)]
pub fn defaults_from_json(j: &Json) -> (r: Option<Vec<(String, DataValue)>>)
{
    match j {
        Json::JObj(entries) => {
            let mut out: Vec<(String, DataValue)> = Vec::new();
            let mut i: usize = 0;
            while i < entries.len()
                invariant
                    i <= entries@.len(),
                decreases entries@.len() - i,
            {
                match data_value_from_json(&entries[i].1, 64) {
                    Some(v) => {
                        out.push((entries[i].0.clone(), v));
                    },
                    None => {
                        return Option::None;
                    },
                }
                i = i + 1;
            }
            Some(out)
        },
        _ => Option::None,
    }
}

/// One instance from its serialized form.
#[verifier::loop_isolation(false)]
pub fn instance_from_json(j: &Json) -> (r: Option<Instance>)
{
    match j {
        Json::JObj(entries) => {
            let node_type = match obj_get(entries, "node_type") {
                Some(v) => {
                    match node_type_from_json(v) {
                        Some(t) => t,
                        None => {
                            return Option::None;
                        },
                    }
                },
                None => {
                    return Option::None;
                },
            };
            let default_overrides = match obj_get(entries, "default_overrides") {
                Some(v) => {
                    match defaults_from_json(v) {
                        Some(d) => d,
                        None => {
                            return Option::None;
                        },
                    }
                },
                None => Vec::new(),
            };
            let outputs = match obj_get(entries, "outputs") {
                Some(v) => {
                    match types_from_json(v) {
                        Some(t) => t,
                        None => {
                            return Option::None;
                        },
                    }
                },
                None => {
                    return Option::None;
                },
            };
            let inputs = match obj_get(entries, "inputs") {
                Some(Json::JArr(items)) => {
                    let mut out: Vec<InputEdge> = Vec::new();
                    let mut i: usize = 0;
                    let mut ok = true;
                    while i < items.len()
                        invariant
                            i <= items@.len(),
                        decreases items@.len() - i,
                    {
                        match edge_from_json(&items[i]) {
                            Some(e) => {
                                out.push(e);
                            },
                            None => {
                                ok = false;
                                break;
                            },
                        }
                        i = i + 1;
                    }
                    if !ok {
                        return Option::None;
                    }
                    out
                },
                _ => {
                    return Option::None;
                },
            };
            Some(Instance { node_type, default_overrides, outputs, inputs })
        },
        _ => Option::None,
    }
}

/// Whether every edge source of the template is one of its instance
/// keys, as `complex_closed` states.
#[verifier::loop_isolation(false)]
pub fn check_closed(c: &Complex) -> (r: bool)
    ensures
        r == crate::builder::complex_closed(*c),
{
    let n = c.instances.len();
    let mut k: usize = 0;
    while k < n
        invariant
            n == c.instances@.len(),
            k <= n,
            forall|k1: int, e1: int| 0 <= k1 < k && 0 <= e1 < c.instances@[
                k1].1.inputs@.len() ==> (exists|k2: int| 0 <= k2 < c.instances@.len()
                && (#[trigger] c.instances@[k2]).0 == (#[trigger] c.instances@[k1].1.inputs@[
                e1]).src),
        decreases n - k,
    {
        let ne = c.instances[k].1.inputs.len();
        let mut e: usize = 0;
        while e < ne
            invariant
                n == c.instances@.len(),
                k < n,
                ne == c.instances@[k as int].1.inputs@.len(),
                e <= ne,
                forall|e1: int| 0 <= e1 < e ==> (exists|k2: int| 0 <= k2 < c.instances@.len()
                    && (#[trigger] c.instances@[k2]).0 == (#[trigger] c.instances@[
                    k as int].1.inputs@[e1]).src),
            decreases ne - e,
        {
            let src = c.instances[k].1.inputs[e].src;
            let mut found = false;
            let mut k2: usize = 0;
            while k2 < n
                invariant
                    n == c.instances@.len(),
                    k < n,
                    e < c.instances@[k as int].1.inputs@.len(),
                    src == c.instances@[k as int].1.inputs@[e as int].src,
                    k2 <= n,
                    found ==> (exists|k3: int| 0 <= k3 < c.instances@.len()
                        && (#[trigger] c.instances@[k3]).0 == src),
                    !found ==> (forall|k3: int| 0 <= k3 < k2 ==> (#[trigger] c.instances@[
                        k3]).0 != src),
                decreases n - k2,
            {
                if c.instances[k2].0 == src {
                    found = true;
                }
                k2 = k2 + 1;
            }
            if !found {
                proof {
                    assert(!crate::builder::complex_closed(*c));
                }
                return false;
            }
            e = e + 1;
        }
        k = k + 1;
    }
    true
}

/// A sub-graph description from its serialized text. The document must
/// be an object carrying the boundary types, the sink identifier, the
/// defaults, and the instances keyed by local identifier; every edge
/// source must name an instance of the document, so a loaded graph
/// resolves all of its edges.
#[verifier::loop_isolation(false)]
pub fn parse_complex(text: &str) -> (r: Result<Complex, String>)
    ensures
        r matches Ok(c) ==> crate::builder::complex_closed(c),
{
    let cs = crate::strutil::str_chars(text);
    let fuel: u64 = if cs.len() < 1000000 {
        (cs.len() as u64) + 2
    } else {
        1000000u64
    };
    let mut cur = Cursor { cs, pos: 0 };
    let j = match cur.parse_value(fuel) {
        Some(j) => j,
        None => {
            return Err(String::from_str("malformed document"));
        },
    };
    match &j {
        Json::JObj(entries) => {
            let inputs = match obj_get(entries, "inputs") {
                Some(v) => {
                    match types_from_json(v) {
                        Some(t) => t,
                        None => {
                            return Err(String::from_str("bad inputs"));
                        },
                    }
                },
                None => {
                    return Err(String::from_str("missing inputs"));
                },
            };
            let outputs = match obj_get(entries, "outputs") {
                Some(v) => {
                    match types_from_json(v) {
                        Some(t) => t,
                        None => {
                            return Err(String::from_str("bad outputs"));
                        },
                    }
                },
                None => {
                    return Err(String::from_str("missing outputs"));
                },
            };
            let end_node = match obj_get(entries, "end_node") {
                Some(v) => {
                    match node_id_from_json(v) {
                        Some(n) => n,
                        None => {
                            return Err(String::from_str("bad end_node"));
                        },
                    }
                },
                None => {
                    return Err(String::from_str("missing end_node"));
                },
            };
            let defaults = match obj_get(entries, "defaults") {
                Some(v) => {
                    match defaults_from_json(v) {
                        Some(d) => d,
                        None => {
                            return Err(String::from_str("bad defaults"));
                        },
                    }
                },
                None => Vec::new(),
            };
            let instances = match obj_get(entries, "instances") {
                Some(Json::JObj(inst_entries)) => {
                    let mut out: Vec<(NodeId, Instance)> = Vec::new();
                    let mut i: usize = 0;
                    let mut ok = true;
                    while i < inst_entries.len()
                        invariant
                            i <= inst_entries@.len(),
                        decreases inst_entries@.len() - i,
                    {
                        let idcs = crate::strutil::str_chars(inst_entries[i].0.as_str());
                        match uuid_from_chars(&idcs) {
                            Some(u) => {
                                match instance_from_json(&inst_entries[i].1) {
                                    Some(inst) => {
                                        out.push((NodeId(u), inst));
                                    },
                                    None => {
                                        ok = false;
                                        break;
                                    },
                                }
                            },
                            None => {
                                ok = false;
                                break;
                            },
                        }
                        i = i + 1;
                    }
                    if !ok {
                        return Err(String::from_str("bad instance"));
                    }
                    out
                },
                _ => {
                    return Err(String::from_str("missing instances"));
                },
            };
            let built = Complex { inputs, outputs, end_node, defaults, instances };
            if !check_closed(&built) {
                return Err(String::from_str("unresolved edge source"));
            }
            Ok(built)
        },
        _ => Err(String::from_str("document is not an object")),
    }
}


/// Appends a JSON string literal (quoted and escaped) to `out`.
fn push_json_string(s: &str, out: &mut Vec<char>)
{
    out.push('"');
    let cs = crate::strutil::str_chars(s);
    let mut i: usize = 0;
    while i < cs.len()
        invariant
            i <= cs@.len(),
        decreases cs@.len() - i,
    {
        crate::display::push_esc_char(cs[i], out);
        i = i + 1;
    }
    out.push('"');
}

/// Appends the serialized form of a data type to `out`.
fn push_data_type(t: &DataType, out: &mut Vec<char>)
{
    match t {
        DataType::Array => push_json_string("Array", out),
        DataType::String => push_json_string("String", out),
        DataType::Integer => push_json_string("Integer", out),
        DataType::Float => push_json_string("Float", out),
        DataType::Boolean => push_json_string("Boolean", out),
        DataType::Byte => push_json_string("Byte", out),
        DataType::Handle => push_json_string("Handle", out),
        DataType::Object => push_json_string("Object", out),
        DataType::Agent(k) => {
            out.push('{');
            push_json_string("Agent", out);
            out.push(':');
            match k {
                AgentType::OpenAi => push_json_string("OpenAi", out),
                AgentType::OpenRouter => push_json_string("OpenRouter", out),
            }
            out.push('}');
        },
        DataType::Null => push_json_string("None", out),
    }
}

/// Appends the serialized form of an identifier to `out`.
fn push_node_id(id: &NodeId, out: &mut Vec<char>)
{
    out.push('"');
    crate::display::push_uuid(id.0, out);
    out.push('"');
}

/// Appends the serialized form of an edge to `out`.
fn push_edge(e: &InputEdge, out: &mut Vec<char>)
{
    out.push('[');
    push_data_type(&e.ty, out);
    out.push(',');
    push_node_id(&e.src, out);
    out.push(',');
    crate::strutil::push_dec_digits(e.port as u64, out);
    out.push(',');
    if e.strong {
        out.push('t');
        out.push('r');
        out.push('u');
        out.push('e');
    } else {
        out.push('f');
        out.push('a');
        out.push('l');
        out.push('s');
        out.push('e');
    }
    out.push(']');
}

/// Appends the serialized form of a list of data types to `out`.
fn push_types(ts: &Vec<DataType>, out: &mut Vec<char>)
{
    out.push('[');
    let mut i: usize = 0;
    while i < ts.len()
        invariant
            i <= ts@.len(),
        decreases ts@.len() - i,
    {
        if i > 0 {
            out.push(',');
        }
        push_data_type(&ts[i], out);
        i = i + 1;
    }
    out.push(']');
}

/// Appends the serialized form of named values to `out`.
fn push_defaults(ds: &Vec<(String, DataValue)>, out: &mut Vec<char>)
{
    out.push('{');
    let mut i: usize = 0;
    while i < ds.len()
        invariant
            i <= ds@.len(),
        decreases ds@.len() - i,
    {
        if i > 0 {
            out.push(',');
        }
        push_json_string(ds[i].0.as_str(), out);
        out.push(':');
        crate::display::push_json(&ds[i].1, out);
        i = i + 1;
    }
    out.push('}');
}

/// Appends the serialized form of an atomic operation to `out`.
fn push_atomic(a: &AtomicType, out: &mut Vec<char>)
{
    match a {
        AtomicType::Print => push_json_string("Print", out),
        AtomicType::Replace => push_json_string("Replace", out),
        AtomicType::IsNone => push_json_string("IsNone", out),
        AtomicType::BinOp(op) => {
            out.push('{');
            push_json_string("BinOp", out);
            out.push(':');
            match op {
                AtomicBinOp::Add => push_json_string("Add", out),
                AtomicBinOp::Sub => push_json_string("Sub", out),
                AtomicBinOp::Mul => push_json_string("Mul", out),
                AtomicBinOp::Div => push_json_string("Div", out),
                AtomicBinOp::Pow => push_json_string("Pow", out),
                AtomicBinOp::Mod => push_json_string("Mod", out),
            }
            out.push('}');
        },
        AtomicType::UnaryOp(_) => {
            out.push('{');
            push_json_string("UnaryOp", out);
            out.push(':');
            push_json_string("Neg", out);
            out.push('}');
        },
        AtomicType::Value(v) => {
            out.push('{');
            push_json_string("Value", out);
            out.push(':');
            crate::display::push_json(v, out);
            out.push('}');
        },
        AtomicType::Control(c) => {
            out.push('{');
            push_json_string("Control", out);
            out.push(':');
            match c {
                ControlFlow::Start => push_json_string("Start", out),
                ControlFlow::End => push_json_string("End", out),
                ControlFlow::If(e) => {
                    out.push('{');
                    push_json_string("If", out);
                    out.push(':');
                    push_edge(e, out);
                    out.push('}');
                },
                ControlFlow::While(e) => {
                    out.push('{');
                    push_json_string("While", out);
                    out.push(':');
                    push_edge(e, out);
                    out.push('}');
                },
                ControlFlow::WaitForInit(e) => {
                    out.push('{');
                    push_json_string("WaitForInit", out);
                    out.push(':');
                    push_edge(e, out);
                    out.push('}');
                },
            }
            out.push('}');
        },
        AtomicType::Variable(action, name) => {
            out.push('{');
            push_json_string("Variable", out);
            out.push(':');
            out.push('[');
            match action {
                VarAction::Store => push_json_string("Set", out),
                VarAction::Get => push_json_string("Get", out),
            }
            out.push(',');
            push_json_string(name.as_str(), out);
            out.push(']');
            out.push('}');
        },
        AtomicType::Io(io) => {
            out.push('{');
            push_json_string("Io", out);
            out.push(':');
            match io {
                AtomicIo::Read => push_json_string("Read", out),
                AtomicIo::Write => push_json_string("Write", out),
                AtomicIo::GetLine => push_json_string("GetLine", out),
                AtomicIo::ConsoleInput => push_json_string("ConsoleInput", out),
                AtomicIo::Open(k) => {
                    out.push('{');
                    push_json_string("Open", out);
                    out.push(':');
                    match k {
                        IoType::File => push_json_string("File", out),
                        IoType::TcpSocket => push_json_string("TcpSocket", out),
                    }
                    out.push('}');
                },
            }
            out.push('}');
        },
        AtomicType::Cast(t) => {
            out.push('{');
            push_json_string("Cast", out);
            out.push(':');
            push_data_type(t, out);
            out.push('}');
        },
        AtomicType::LogicalOp(op) => {
            out.push('{');
            push_json_string("LogicalOp", out);
            out.push(':');
            match op {
                AtomicLogic::And => push_json_string("And", out),
                AtomicLogic::Or => push_json_string("Or", out),
                AtomicLogic::Xor => push_json_string("Xor", out),
                AtomicLogic::Not => push_json_string("Not", out),
                AtomicLogic::Eq => push_json_string("Eq", out),
            }
            out.push('}');
        },
        AtomicType::AgentOp(op) => {
            out.push('{');
            push_json_string("AgentOp", out);
            out.push(':');
            match op {
                AgentAction::Send => push_json_string("Send", out),
                AgentAction::Recieve => push_json_string("Recieve", out),
                AgentAction::Create(k) => {
                    out.push('{');
                    push_json_string("Create", out);
                    out.push(':');
                    match k {
                        AgentType::OpenAi => push_json_string("OpenAi", out),
                        AgentType::OpenRouter => push_json_string("OpenRouter", out),
                    }
                    out.push('}');
                },
            }
            out.push('}');
        },
    }
}

/// The serialized text of a sub-graph description, reparseable by
/// `parse_complex`.
pub fn complex_to_json(c: &Complex) -> (r: String)
{
    let mut out: Vec<char> = Vec::new();
    out.push('{');
    push_json_string("inputs", &mut out);
    out.push(':');
    push_types(&c.inputs, &mut out);
    out.push(',');
    push_json_string("outputs", &mut out);
    out.push(':');
    push_types(&c.outputs, &mut out);
    out.push(',');
    push_json_string("end_node", &mut out);
    out.push(':');
    push_node_id(&c.end_node, &mut out);
    out.push(',');
    push_json_string("defaults", &mut out);
    out.push(':');
    push_defaults(&c.defaults, &mut out);
    out.push(',');
    push_json_string("instances", &mut out);
    out.push(':');
    out.push('{');
    let mut i: usize = 0;
    while i < c.instances.len()
        invariant
            i <= c.instances@.len(),
        decreases c.instances@.len() - i,
    {
        if i > 0 {
            out.push(',');
        }
        push_node_id(&c.instances[i].0, &mut out);
        out.push(':');
        out.push('{');
        push_json_string("node_type", &mut out);
        out.push(':');
        match &c.instances[i].1.node_type {
            NodeType::Atomic(a) => {
                out.push('{');
                push_json_string("Atomic", &mut out);
                out.push(':');
                push_atomic(a, &mut out);
                out.push('}');
            },
            NodeType::Complex(p) => {
                out.push('{');
                push_json_string("Complex", &mut out);
                out.push(':');
                push_json_string(p.as_str(), &mut out);
                out.push('}');
            },
        }
        out.push(',');
        push_json_string("default_overrides", &mut out);
        out.push(':');
        push_defaults(&c.instances[i].1.default_overrides, &mut out);
        out.push(',');
        push_json_string("outputs", &mut out);
        out.push(':');
        push_types(&c.instances[i].1.outputs, &mut out);
        out.push(',');
        push_json_string("inputs", &mut out);
        out.push(':');
        out.push('[');
        let mut e: usize = 0;
        while e < c.instances[i].1.inputs.len()
            invariant
                i < c.instances@.len(),
                e <= c.instances@[i as int].1.inputs@.len(),
            decreases c.instances@[i as int].1.inputs@.len() - e,
        {
            if e > 0 {
                out.push(',');
            }
            push_edge(&c.instances[i].1.inputs[e], &mut out);
            e = e + 1;
        }
        out.push(']');
        out.push('}');
        i = i + 1;
    }
    out.push('}');
    out.push('}');
    chars_to_string(&out)
}


} // verus!
