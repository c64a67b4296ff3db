//! Display forms of runtime values. Numerics render in decimal, booleans
//! as words, bytes as two hex digits, handles in canonical hyphenated
//! form, agents as `kind:id`, the absent value as nothing, and arrays and
//! objects as their JSON renderings.
use vstd::prelude::*;
use crate::agent::AgentType;
use crate::float_ops::float_display;
use crate::strutil::{
    byte_hex, chars_to_string, dec_digits, dec_int, hex_digits, push_dec_digits, push_hex_u128,
    str_chars, uuid_hyphenated,
};
use crate::value::{DataValue, ValView};

verus! {

/// The name of an agent kind, as the catalog spells it.
pub open spec fn agent_kind_chars(t: AgentType) -> Seq<char> {
    match t {
        AgentType::OpenAi => seq!['O', 'p', 'e', 'n', 'A', 'i'],
        AgentType::OpenRouter => seq!['O', 'p', 'e', 'n', 'R', 'o', 'u', 't', 'e', 'r'],
    }
}

/// The JSON escape of one character: quotes, backslashes and the named
/// control characters get a backslash form, other control characters the
/// `\u00..` form, and everything else stands for itself.
pub open spec fn esc_char(c: char) -> Seq<char> {
    if c == '"' {
        seq!['\\', '"']
    } else if c == '\\' {
        seq!['\\', '\\']
    } else if c == '\n' {
        seq!['\\', 'n']
    } else if c == '\r' {
        seq!['\\', 'r']
    } else if c == '\t' {
        seq!['\\', 't']
    } else if c as int == 8 {
        seq!['\\', 'b']
    } else if c as int == 12 {
        seq!['\\', 'f']
    } else if (c as int) < 32 {
        seq!['\\', 'u', '0', '0'] + hex_digits(c as int, 2)
    } else {
        seq![c]
    }
}

/// The JSON escape of a whole string.
pub open spec fn json_escape(s: Seq<char>) -> Seq<char>
    decreases s.len(),
{
    if s.len() == 0 {
        Seq::empty()
    } else {
        json_escape(s.drop_last()) + esc_char(s.last())
    }
}

/// The JSON rendering of a value shape.
pub open spec fn json_of(v: ValView) -> Seq<char>
    decreases v,
{
    match v {
        ValView::StringV(s) => seq!['"'] + json_escape(s) + seq!['"'],
        ValView::IntegerV(i) => dec_int(i as int),
        ValView::FloatV(b) => float_display(b),
        ValView::BooleanV(b) => if b {
            seq!['t', 'r', 'u', 'e']
        } else {
            seq!['f', 'a', 'l', 's', 'e']
        },
        ValView::ByteV(b) => dec_digits(b as int),
        ValView::ArrayV(es) => seq!['['] + json_items(es) + seq![']'],
        ValView::HandleV(h) => seq!['"'] + uuid_hyphenated(h as int) + seq!['"'],
        ValView::ObjectV(ps) => seq!['{'] + json_entries(ps) + seq!['}'],
        ValView::AgentV(t, id) => seq!['[', '"'] + agent_kind_chars(t) + seq!['"', ',', '"']
            + uuid_hyphenated(id as int) + seq!['"', ']'],
        ValView::NullV => seq!['n', 'u', 'l', 'l'],
    }
}

/// The comma-separated JSON renderings of a sequence of value shapes.
pub open spec fn json_items(es: Seq<ValView>) -> Seq<char>
    decreases es,
{
    if es.len() == 0 {
        Seq::empty()
    } else if es.len() == 1 {
        json_of(es.last())
    } else {
        json_items(es.drop_last()) + seq![','] + json_of(es.last())
    }
}

/// The comma-separated JSON renderings of an object's entries.
pub open spec fn json_entries(ps: Seq<(Seq<char>, ValView)>) -> Seq<char>
    decreases ps,
{
    if ps.len() == 0 {
        Seq::empty()
    } else if ps.len() == 1 {
        seq!['"'] + json_escape(ps.last().0) + seq!['"', ':'] + json_of(ps.last().1)
    } else {
        json_entries(ps.drop_last()) + seq![','] + seq!['"'] + json_escape(ps.last().0)
            + seq!['"', ':'] + json_of(ps.last().1)
    }
}

/// The display form of a value shape.
pub open spec fn display_of(v: ValView) -> Seq<char> {
    match v {
        ValView::StringV(s) => s,
        ValView::IntegerV(i) => dec_int(i as int),
        ValView::FloatV(b) => float_display(b),
        ValView::BooleanV(b) => if b {
            seq!['t', 'r', 'u', 'e']
        } else {
            seq!['f', 'a', 'l', 's', 'e']
        },
        ValView::ByteV(b) => byte_hex(b),
        ValView::ArrayV(_) => json_of(v),
        ValView::HandleV(h) => uuid_hyphenated(h as int),
        ValView::ObjectV(_) => json_of(v),
        ValView::AgentV(t, id) => agent_kind_chars(t) + seq![':'] + uuid_hyphenated(id as int),
        ValView::NullV => Seq::empty(),
    }
}

/// Appends the JSON escape of one character to `out`.
pub fn push_esc_char(c: char, out: &mut Vec<char>)
    ensures
        final(out)@ == old(out)@ + esc_char(c),
{
    if c == '"' {
        out.push('\\');
        out.push('"');
    } else if c == '\\' {
        out.push('\\');
        out.push('\\');
    } else if c == '\n' {
        out.push('\\');
        out.push('n');
    } else if c == '\r' {
        out.push('\\');
        out.push('r');
    } else if c == '\t' {
        out.push('\\');
        out.push('t');
    } else if (c as u32) == 8 {
        out.push('\\');
        out.push('b');
    } else if (c as u32) == 12 {
        out.push('\\');
        out.push('f');
    } else if (c as u32) < 32 {
        out.push('\\');
        out.push('u');
        out.push('0');
        out.push('0');
        push_hex_u128((c as u32) as u128, 2, out);
        assert(final(out)@ =~= old(out)@ + esc_char(c));
    } else {
        out.push(c);
    }
}

/// Appends the JSON escape of `s` to `out`.
#[verifier::loop_isolation(false)]
fn push_escaped(s: &Vec<char>, out: &mut Vec<char>)
    ensures
        final(out)@ == old(out)@ + json_escape(s@),
{
    let mut i: usize = 0;
    while i < s.len()
        invariant
            i <= s.len(),
            out@ == old(out)@ + json_escape(s@.take(i as int)),
        decreases s.len() - i,
    {
        push_esc_char(s[i], out);
        proof {
            assert(s@.take(i + 1).drop_last() =~= s@.take(i as int));
            assert(s@.take(i + 1).last() == s@[i as int]);
            assert(out@ =~= old(out)@ + json_escape(s@.take(i + 1)));
        }
        i = i + 1;
    }
    proof {
        assert(s@.take(s@.len() as int) =~= s@);
    }
}

/// Appends the decimal rendering of a signed number to `out`.
pub fn push_dec_i64(i: i64, out: &mut Vec<char>)
    ensures
        final(out)@ == old(out)@ + dec_int(i as int),
{
    if i < 0 {
        out.push('-');
        let m: u64 = ((-(i as i128)) as u64);
        assert(m as int == -(i as int));
        push_dec_digits(m, out);
    } else {
        push_dec_digits(i as u64, out);
    }
}

/// Appends the canonical hyphenated form of an identifier to `out`.
pub fn push_uuid(n: u128, out: &mut Vec<char>)
    ensures
        final(out)@ == old(out)@ + uuid_hyphenated(n as int),
{
    push_hex_u128(n / 0x1000000000000000000000000, 8, out);
    out.push('-');
    push_hex_u128((n / 0x100000000000000000000) % 0x10000, 4, out);
    out.push('-');
    push_hex_u128((n / 0x10000000000000000) % 0x10000, 4, out);
    out.push('-');
    push_hex_u128((n / 0x1000000000000) % 0x10000, 4, out);
    out.push('-');
    push_hex_u128(n % 0x1000000000000, 12, out);
}

/// Appends `true` or `false` to `out`.
fn push_bool(b: bool, out: &mut Vec<char>)
    ensures
        final(out)@ == old(out)@ + (if b {
            seq!['t', 'r', 'u', 'e']
        } else {
            seq!['f', 'a', 'l', 's', 'e']
        }),
{
    if b {
        out.push('t');
        out.push('r');
        out.push('u');
        out.push('e');
    } else {
        out.push('f');
        out.push('a');
        out.push('l');
        out.push('s');
        out.push('e');
    }
}

/// Appends the name of an agent kind to `out`.
fn push_agent_kind(t: AgentType, out: &mut Vec<char>)
    ensures
        final(out)@ == old(out)@ + agent_kind_chars(t),
{
    match t {
        AgentType::OpenAi => {
            out.push('O');
            out.push('p');
            out.push('e');
            out.push('n');
            out.push('A');
            out.push('i');
        },
        AgentType::OpenRouter => {
            out.push('O');
            out.push('p');
            out.push('e');
            out.push('n');
            out.push('R');
            out.push('o');
            out.push('u');
            out.push('t');
            out.push('e');
            out.push('r');
        },
    }
}

/// Appends the JSON rendering of a value to `out`.
#[verifier::loop_isolation(false)]
#[verifier::rlimit(100)]
pub fn push_json(v: &DataValue, out: &mut Vec<char>)
    ensures
        final(out)@ == old(out)@ + json_of(v@),
    decreases *v,
{
    match v {
        DataValue::String(s) => {
            let cs = str_chars(s.as_str());
            out.push('"');
            push_escaped(&cs, out);
            out.push('"');
            assert(out@ =~= old(out)@ + json_of(v@));
        },
        DataValue::Integer(i) => {
            push_dec_i64(*i, out);
        },
        DataValue::Float(b) => {
            let fs = crate::float_ops::float_to_string(*b);
            let cs = str_chars(fs.as_str());
            let mut k: usize = 0;
            while k < cs.len()
                invariant
                    k <= cs.len(),
                    out@ == old(out)@ + cs@.take(k as int),
                decreases cs.len() - k,
            {
                out.push(cs[k]);
                proof {
                    assert(cs@.take(k + 1) =~= cs@.take(k as int) + seq![cs@[k as int]]);
                }
                k = k + 1;
            }
            proof {
                assert(cs@.take(cs@.len() as int) =~= cs@);
            }
        },
        DataValue::Boolean(b) => {
            push_bool(*b, out);
        },
        DataValue::Byte(b) => {
            push_dec_digits(*b as u64, out);
        },
        DataValue::Array(xs) => {
            proof {
                crate::value::lemma_views_of_seq(xs@);
            }
            out.push('[');
            let mut i: usize = 0;
            while i < xs.len()
                invariant
                    i <= xs.len(),
                    out@ == old(out)@ + seq!['['] + json_items(
                        crate::value::views_of_seq(xs@).take(i as int),
                    ),
                decreases xs.len() - i,
            {
                proof {
                    assert(decreases_to!(*v => *xs));
                    assert(decreases_to!(*xs => xs@));
                    assert(decreases_to!(xs@ => xs@[i as int]));
                }
                if i > 0 {
                    out.push(',');
                }
                push_json(&xs[i], out);
                proof {
                    let vs = crate::value::views_of_seq(xs@);
                    assert(vs.take(i + 1).drop_last() =~= vs.take(i as int));
                    assert(vs.take(i + 1).last() == vs[i as int]);
                    assert(vs[i as int] == xs@[i as int]@);
                }
                i = i + 1;
            }
            out.push(']');
            proof {
                let vs = crate::value::views_of_seq(xs@);
                assert(vs.take(vs.len() as int) =~= vs);
                assert(out@ =~= old(out)@ + json_of(v@));
            }
        },
        DataValue::Handle(h) => {
            out.push('"');
            push_uuid(*h, out);
            out.push('"');
            assert(out@ =~= old(out)@ + json_of(v@));
        },
        DataValue::Object(xs) => {
            proof {
                crate::value::lemma_views_of_pairs(xs@);
            }
            out.push('{');
            let mut i: usize = 0;
            while i < xs.len()
                invariant
                    i <= xs.len(),
                    out@ == old(out)@ + seq!['{'] + json_entries(
                        crate::value::views_of_pairs(xs@).take(i as int),
                    ),
                decreases xs.len() - i,
            {
                proof {
                    assert(decreases_to!(*v => *xs));
                    assert(decreases_to!(*xs => xs@));
                    assert(decreases_to!(xs@ => xs@[i as int]));
                    assert(decreases_to!(xs@[i as int] => xs@[i as int].1));
                }
                if i > 0 {
                    out.push(',');
                }
                let cs = str_chars(xs[i].0.as_str());
                out.push('"');
                push_escaped(&cs, out);
                out.push('"');
                out.push(':');
                push_json(&xs[i].1, out);
                proof {
                    let vs = crate::value::views_of_pairs(xs@);
                    assert(vs.take(i + 1).drop_last() =~= vs.take(i as int));
                    assert(vs.take(i + 1).last() == vs[i as int]);
                    assert(vs[i as int] == (xs@[i as int].0@, xs@[i as int].1@));
                    assert(out@ =~= old(out)@ + seq!['{'] + json_entries(vs.take(i + 1)));
                }
                i = i + 1;
            }
            out.push('}');
            proof {
                let vs = crate::value::views_of_pairs(xs@);
                assert(vs.take(vs.len() as int) =~= vs);
                assert(out@ =~= old(out)@ + json_of(v@));
            }
        },
        DataValue::Agent(t, id) => {
            out.push('[');
            out.push('"');
            push_agent_kind(*t, out);
            out.push('"');
            out.push(',');
            out.push('"');
            push_uuid(*id, out);
            out.push('"');
            out.push(']');
            assert(out@ =~= old(out)@ + json_of(v@));
        },
        DataValue::Null => {
            out.push('n');
            out.push('u');
            out.push('l');
            out.push('l');
            assert(out@ =~= old(out)@ + json_of(v@));
        },
    }
}

/// Appends the display form of a value to `out`.
pub fn push_display(v: &DataValue, out: &mut Vec<char>)
    ensures
        final(out)@ == old(out)@ + display_of(v@),
{
    match v {
        DataValue::String(s) => {
            let cs = str_chars(s.as_str());
            let mut k: usize = 0;
            while k < cs.len()
                invariant
                    k <= cs.len(),
                    out@ == old(out)@ + cs@.take(k as int),
                decreases cs.len() - k,
            {
                out.push(cs[k]);
                proof {
                    assert(cs@.take(k + 1) =~= cs@.take(k as int) + seq![cs@[k as int]]);
                }
                k = k + 1;
            }
            proof {
                assert(cs@.take(cs@.len() as int) =~= cs@);
            }
        },
        DataValue::Integer(i) => {
            push_dec_i64(*i, out);
        },
        DataValue::Float(b) => {
            let fs = crate::float_ops::float_to_string(*b);
            let cs = str_chars(fs.as_str());
            let mut k: usize = 0;
            while k < cs.len()
                invariant
                    k <= cs.len(),
                    out@ == old(out)@ + cs@.take(k as int),
                decreases cs.len() - k,
            {
                out.push(cs[k]);
                proof {
                    assert(cs@.take(k + 1) =~= cs@.take(k as int) + seq![cs@[k as int]]);
                }
                k = k + 1;
            }
            proof {
                assert(cs@.take(cs@.len() as int) =~= cs@);
            }
        },
        DataValue::Boolean(b) => {
            push_bool(*b, out);
        },
        DataValue::Byte(b) => {
            push_hex_u128(*b as u128, 2, out);
        },
        DataValue::Array(_) => {
            push_json(v, out);
        },
        DataValue::Handle(h) => {
            push_uuid(*h, out);
        },
        DataValue::Object(_) => {
            push_json(v, out);
        },
        DataValue::Agent(t, id) => {
            push_agent_kind(*t, out);
            out.push(':');
            push_uuid(*id, out);
        },
        DataValue::Null => {},
    }
}

/// The display form of a value, as `display_of` states it.
pub fn display_string(v: &DataValue) -> (r: String)
    ensures
        r@ == display_of(v@),
{
    let mut out: Vec<char> = Vec::new();
    push_display(v, &mut out);
    chars_to_string(&out)
}

} // verus!
