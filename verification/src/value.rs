//! The value model: the tagged sum of runtime values, its type tags, and
//! structural operations on them. Floats are carried as their IEEE-754
//! bit patterns; handles and agent identities as 128-bit identifiers.
//!
//! Contracts speak of `ValView`, the mathematical shape of a value: strings
//! become character sequences and vectors become sequences, so that two
//! values with the same contents are the same view.
use vstd::prelude::*;
use crate::agent::AgentType;
use crate::float_ops::{feq_bits, int_to_float_bits, float_trunc_to_int};

verus! {

/// The errors of the arithmetic operators: an operand combination the
/// operator is not defined on, division or modulo by zero, or an
/// exponent this engine cannot raise a float to. The last is a known
/// narrowing of the power operator: a float power with a fractional or
/// out-of-range exponent needs a host floating-point power, which the
/// verified engine has no primitive for, so instead of a wrong answer it
/// reports this distinct failure.
#[derive(Debug)]
pub enum ArithmaticError {
    InvalidCombo(DataValue, DataValue),
    DivByZero,
    UnsupportedExponent(DataValue, DataValue),
}

/// The type tags of runtime values.
#[derive(Clone, Copy, Debug, PartialEq, Eq, Structural)]
pub enum DataType {
    Array,
    String,
    Integer,
    Float,
    Boolean,
    Byte,
    Handle,
    Object,
    Agent(AgentType),
    Null,
}

/// A runtime value. `Float` holds the IEEE-754 bit pattern of a double;
/// `Handle` and the agent identity hold 128-bit identifiers; `Object` is
/// an association list from names to values, read front to back — the
/// first binding of a name wins wherever one is looked up.
#[derive(Debug)]
pub enum DataValue {
    String(String),
    Integer(i64),
    Float(u64),
    Boolean(bool),
    Byte(u8),
    Array(Vec<DataValue>),
    Handle(u128),
    Object(Vec<(String, DataValue)>),
    Agent(AgentType, u128),
    Null,
}

/// The mathematical shape of a runtime value.
pub enum ValView {
    StringV(Seq<char>),
    IntegerV(i64),
    FloatV(u64),
    BooleanV(bool),
    ByteV(u8),
    ArrayV(Seq<ValView>),
    HandleV(u128),
    ObjectV(Seq<(Seq<char>, ValView)>),
    AgentV(AgentType, u128),
    NullV,
}

impl DataValue {
    /// The shape of this value.
    pub open spec fn view_of(self) -> ValView
        decreases self,
    {
        match self {
            DataValue::String(s) => ValView::StringV(s@),
            DataValue::Integer(x) => ValView::IntegerV(x),
            DataValue::Float(b) => ValView::FloatV(b),
            DataValue::Boolean(b) => ValView::BooleanV(b),
            DataValue::Byte(b) => ValView::ByteV(b),
            DataValue::Array(xs) => ValView::ArrayV(views_of_seq(xs@)),
            DataValue::Handle(h) => ValView::HandleV(h),
            DataValue::Object(xs) => ValView::ObjectV(views_of_pairs(xs@)),
            DataValue::Agent(t, id) => ValView::AgentV(t, id),
            DataValue::Null => ValView::NullV,
        }
    }
}

/// The shapes of a sequence of values, element by element.
pub open spec fn views_of_seq(s: Seq<DataValue>) -> Seq<ValView>
    decreases s,
{
    if s.len() == 0 {
        Seq::empty()
    } else {
        views_of_seq(s.drop_last()) + seq![s.last().view_of()]
    }
}

/// The shapes of a sequence of named values, element by element.
pub open spec fn views_of_pairs(s: Seq<(String, DataValue)>) -> Seq<(Seq<char>, ValView)>
    decreases s,
{
    if s.len() == 0 {
        Seq::empty()
    } else {
        views_of_pairs(s.drop_last()) + seq![(s.last().0@, s.last().1.view_of())]
    }
}

/// `views_of_seq` maps the sequence pointwise.
pub broadcast proof fn lemma_views_of_seq(s: Seq<DataValue>)
    ensures
        (#[trigger] views_of_seq(s)).len() == s.len(),
        forall|i: int| 0 <= i < s.len() ==> views_of_seq(s)[i] == (#[trigger] s[i]).view_of(),
    decreases s.len(),
{
    if s.len() > 0 {
        lemma_views_of_seq(s.drop_last());
        assert forall|i: int| 0 <= i < s.len() implies views_of_seq(s)[i]
            == (#[trigger] s[i]).view_of() by {
            if i < s.len() - 1 {
                assert(s.drop_last()[i] == s[i]);
            } else {
                assert(s.last() == s[i]);
            }
        }
    }
}

/// `views_of_pairs` maps the sequence pointwise.
pub broadcast proof fn lemma_views_of_pairs(s: Seq<(String, DataValue)>)
    ensures
        (#[trigger] views_of_pairs(s)).len() == s.len(),
        forall|i: int| 0 <= i < s.len() ==> views_of_pairs(s)[i]
            == ((#[trigger] s[i]).0@, s[i].1.view_of()),
    decreases s.len(),
{
    if s.len() > 0 {
        lemma_views_of_pairs(s.drop_last());
        assert forall|i: int| 0 <= i < s.len() implies views_of_pairs(s)[i]
            == ((#[trigger] s[i]).0@, s[i].1.view_of()) by {
            if i < s.len() - 1 {
                assert(s.drop_last()[i] == s[i]);
            } else {
                assert(s.last() == s[i]);
            }
        }
    }
}

impl View for DataValue {
    type V = ValView;

    open spec fn view(&self) -> ValView {
        self.view_of()
    }
}

/// The type tag of a value shape.
pub open spec fn type_of_view(v: ValView) -> DataType {
    match v {
        ValView::StringV(_) => DataType::String,
        ValView::IntegerV(_) => DataType::Integer,
        ValView::FloatV(_) => DataType::Float,
        ValView::BooleanV(_) => DataType::Boolean,
        ValView::ByteV(_) => DataType::Byte,
        ValView::ArrayV(_) => DataType::Array,
        ValView::HandleV(_) => DataType::Handle,
        ValView::ObjectV(_) => DataType::Object,
        ValView::AgentV(t, _) => DataType::Agent(t),
        ValView::NullV => DataType::Null,
    }
}

/// Whether position `i` holds the first binding of its name in the
/// association list.
pub open spec fn first_binding(ps: Seq<(Seq<char>, ValView)>, i: int) -> bool {
    forall|i2: int| 0 <= i2 < i ==> (#[trigger] ps[i2]).0 != ps[i].0
}

/// Somewhere at or before any binding stands the first binding of its
/// name.
pub proof fn lemma_first_binding_exists(ps: Seq<(Seq<char>, ValView)>, j: int)
    requires
        0 <= j < ps.len(),
    ensures
        exists|j0: int| 0 <= j0 <= j && first_binding(ps, j0) && (#[trigger] ps[j0]).0 == ps[
            j].0,
    decreases j,
{
    if first_binding(ps, j) {
        assert(0 <= j <= j && first_binding(ps, j) && ps[j].0 == ps[j].0);
    } else {
        let j2 = choose|j2: int| 0 <= j2 < j && (#[trigger] ps[j2]).0 == ps[j].0;
        lemma_first_binding_exists(ps, j2);
        let j0 = choose|j0: int| 0 <= j0 <= j2 && first_binding(ps, j0) && (#[trigger] ps[
            j0]).0 == ps[j2].0;
        assert(0 <= j0 <= j && first_binding(ps, j0) && ps[j0].0 == ps[j].0);
    }
}

/// Two first bindings of the same name are the same binding.
pub proof fn lemma_first_binding_unique(ps: Seq<(Seq<char>, ValView)>, j1: int, j2: int)
    requires
        0 <= j1 < ps.len(),
        0 <= j2 < ps.len(),
        first_binding(ps, j1),
        first_binding(ps, j2),
        ps[j1].0 == ps[j2].0,
    ensures
        j1 == j2,
{
    if j1 < j2 {
        assert(ps[j1].0 != ps[j2].0);
    }
    if j2 < j1 {
        assert(ps[j2].0 != ps[j1].0);
    }
}

/// Whether the first binding at `i` has a matching binding over there:
/// the first binding of the same name, with an equal value.
pub open spec fn obj_entry_matched(
    xs: Seq<(Seq<char>, ValView)>,
    ys: Seq<(Seq<char>, ValView)>,
    i: int,
) -> bool
    decreases xs, 0int,
{
    if 0 <= i < xs.len() {
        exists|j: int| 0 <= j < ys.len() && first_binding(ys, j) && (#[trigger] ys[j]).0 == xs[
            i].0 && veq(xs[i].1, ys[j].1)
    } else {
        false
    }
}

/// Every first binding here has a matching binding there.
pub open spec fn obj_covers(xs: Seq<(Seq<char>, ValView)>, ys: Seq<(Seq<char>, ValView)>) -> bool
    decreases xs, 1int,
{
    forall|i: int| 0 <= i < xs.len() && first_binding(xs, i) ==> obj_entry_matched(xs, ys, i)
}

/// Every name bound there is bound here too.
pub open spec fn obj_names_covered(
    xs: Seq<(Seq<char>, ValView)>,
    ys: Seq<(Seq<char>, ValView)>,
) -> bool {
    forall|j: int| 0 <= j < ys.len() && first_binding(ys, j) ==> (exists|i: int| 0 <= i
        < xs.len() && first_binding(xs, i) && (#[trigger] xs[i]).0 == ys[j].0)
}

/// Structural equality of two value shapes, with floats compared under
/// IEEE-754 equality (as the host language compares them). Objects are
/// mappings: they compare by their effective bindings — the first
/// binding of each name — equal names, and an equal value under each,
/// blind to entry order.
pub open spec fn veq(a: ValView, b: ValView) -> bool
    decreases a, 2int,
{
    match (a, b) {
        (ValView::StringV(x), ValView::StringV(y)) => x == y,
        (ValView::IntegerV(x), ValView::IntegerV(y)) => x == y,
        (ValView::FloatV(x), ValView::FloatV(y)) => feq_bits(x, y),
        (ValView::BooleanV(x), ValView::BooleanV(y)) => x == y,
        (ValView::ByteV(x), ValView::ByteV(y)) => x == y,
        (ValView::ArrayV(xs), ValView::ArrayV(ys)) => {
            &&& xs.len() == ys.len()
            &&& forall|i: int| 0 <= i < xs.len() ==> veq(#[trigger] xs[i], ys[i])
        },
        (ValView::HandleV(x), ValView::HandleV(y)) => x == y,
        (ValView::ObjectV(xs), ValView::ObjectV(ys)) => obj_covers(xs, ys)
            && obj_names_covered(xs, ys),
        (ValView::AgentV(t, x), ValView::AgentV(u, y)) => t == u && x == y,
        (ValView::NullV, ValView::NullV) => true,
        _ => false,
    }
}

/// The outcome of a cast of `v` to `t`: the identity cast, the three
/// conversions the engine defines, or a failure carrying the pair of types.
pub open spec fn try_cast_spec(v: ValView, t: DataType) -> Result<ValView, (DataType, DataType)> {
    if type_of_view(v) == t {
        Ok(v)
    } else {
        match (v, t) {
            (ValView::NullV, DataType::Boolean) => Ok(ValView::BooleanV(false)),
            (ValView::IntegerV(x), DataType::Float) => Ok(ValView::FloatV(int_to_float_bits(x))),
            (ValView::FloatV(b), DataType::Integer) => Ok(
                ValView::IntegerV(float_trunc_to_int(b)),
            ),
            _ => Err((type_of_view(v), t)),
        }
    }
}

/// Whether an executable cast result has exactly the shape of a specified one.
pub open spec fn cast_result_matches(
    r: Result<DataValue, (DataType, DataType)>,
    s: Result<ValView, (DataType, DataType)>,
) -> bool {
    match (r, s) {
        (Ok(v), Ok(w)) => v@ == w,
        (Err(a), Err(b)) => a == b,
        _ => false,
    }
}

impl DataValue {
    /// The type tag of this value.
    pub fn get_type(&self) -> (t: DataType)
        ensures
            t == type_of_view(self@),
    {
        match self {
            DataValue::String(_) => DataType::String,
            DataValue::Integer(_) => DataType::Integer,
            DataValue::Float(_) => DataType::Float,
            DataValue::Boolean(_) => DataType::Boolean,
            DataValue::Byte(_) => DataType::Byte,
            DataValue::Array(_) => DataType::Array,
            DataValue::Handle(_) => DataType::Handle,
            DataValue::Object(_) => DataType::Object,
            DataValue::Agent(t, _) => DataType::Agent(*t),
            DataValue::Null => DataType::Null,
        }
    }

    /// Whether this value is the absent value.
    pub fn is_none(&self) -> (r: bool)
        ensures
            r == (self@ is NullV),
    {
        match self {
            DataValue::Null => true,
            _ => false,
        }
    }

    /// A deep copy of this value, with the same shape as the original.
    #[verifier::loop_isolation(false)]
    pub fn duplicate(&self) -> (r: DataValue)
        ensures
            r@ == self@,
        decreases *self,
    {
        match self {
            DataValue::String(x) => DataValue::String(x.clone()),
            DataValue::Integer(x) => DataValue::Integer(*x),
            DataValue::Float(x) => DataValue::Float(*x),
            DataValue::Boolean(x) => DataValue::Boolean(*x),
            DataValue::Byte(x) => DataValue::Byte(*x),
            DataValue::Array(xs) => {
                let mut out: Vec<DataValue> = Vec::new();
                let mut i: usize = 0;
                while i < xs.len()
                    invariant
                        i <= xs.len(),
                        out@.len() == i,
                        forall|j: int| 0 <= j < i ==> (#[trigger] out@[j])@ == xs@[j]@,
                    decreases xs.len() - i,
                {
                    proof {
                        assert(decreases_to!(*self => *xs));
                        assert(decreases_to!(*xs => xs@));
                        assert(decreases_to!(xs@ => xs@[i as int]));
                    }
                    out.push(xs[i].duplicate());
                    i = i + 1;
                }
                let rv = DataValue::Array(out);
                proof {
                    lemma_views_of_seq(out@);
                    lemma_views_of_seq(xs@);
                    assert forall|j: int| 0 <= j < out@.len() implies views_of_seq(out@)[j]
                        == views_of_seq(xs@)[j] by {
                        assert(out@[j]@ == xs@[j]@);
                    }
                    assert(views_of_seq(out@) =~= views_of_seq(xs@));
                }
                rv
            },
            DataValue::Handle(x) => DataValue::Handle(*x),
            DataValue::Object(xs) => {
                let mut out: Vec<(String, DataValue)> = Vec::new();
                let mut i: usize = 0;
                while i < xs.len()
                    invariant
                        i <= xs.len(),
                        out@.len() == i,
                        forall|j: int| 0 <= j < i ==> (#[trigger] out@[j]).0@ == xs@[j].0@
                            && out@[j].1@ == xs@[j].1@,
                    decreases xs.len() - i,
                {
                    proof {
                        assert(decreases_to!(*self => *xs));
                        assert(decreases_to!(*xs => xs@));
                        assert(decreases_to!(xs@ => xs@[i as int]));
                        assert(decreases_to!(xs@[i as int] => xs@[i as int].1));
                    }
                    let pair = (xs[i].0.clone(), xs[i].1.duplicate());
                    out.push(pair);
                    i = i + 1;
                }
                let rv = DataValue::Object(out);
                proof {
                    lemma_views_of_pairs(out@);
                    lemma_views_of_pairs(xs@);
                    assert forall|j: int| 0 <= j < out@.len() implies views_of_pairs(out@)[j]
                        == views_of_pairs(xs@)[j] by {
                        assert(out@[j].0@ == xs@[j].0@ && out@[j].1@ == xs@[j].1@);
                    }
                    assert(views_of_pairs(out@) =~= views_of_pairs(xs@));
                }
                rv
            },
            DataValue::Agent(t, x) => DataValue::Agent(*t, *x),
            DataValue::Null => DataValue::Null,
        }
    }

    /// Structural equality against another value, as `veq` states it.
    #[verifier::loop_isolation(false)]
    pub fn equals(&self, other: &DataValue) -> (r: bool)
        ensures
            r == veq(self@, other@),
        decreases *self,
    {
        match (self, other) {
            (DataValue::String(x), DataValue::String(y)) => *x == *y,
            (DataValue::Integer(x), DataValue::Integer(y)) => *x == *y,
            (DataValue::Float(x), DataValue::Float(y)) => crate::float_ops::float_eq(*x, *y),
            (DataValue::Boolean(x), DataValue::Boolean(y)) => *x == *y,
            (DataValue::Byte(x), DataValue::Byte(y)) => *x == *y,
            (DataValue::Array(xs), DataValue::Array(ys)) => {
                proof {
                    lemma_views_of_seq(xs@);
                    lemma_views_of_seq(ys@);
                }
                if xs.len() != ys.len() {
                    return false;
                }
                let mut i: usize = 0;
                while i < xs.len()
                    invariant
                        i <= xs.len(),
                        xs@.len() == ys@.len(),
                        forall|j: int| 0 <= j < i ==> veq((#[trigger] xs@[j])@, ys@[j]@),
                    decreases xs.len() - i,
                {
                    proof {
                        assert(decreases_to!(*self => *xs));
                        assert(decreases_to!(*xs => xs@));
                        assert(decreases_to!(xs@ => xs@[i as int]));
                    }
                    if !xs[i].equals(&ys[i]) {
                        proof {
                            assert(views_of_seq(xs@)[i as int] == xs@[i as int]@);
                            assert(!veq(views_of_seq(xs@)[i as int], views_of_seq(ys@)[i as int]));
                        }
                        return false;
                    }
                    i = i + 1;
                }
                proof {
                    assert forall|k: int| 0 <= k < xs@.len() implies veq(
                        views_of_seq(xs@)[k],
                        views_of_seq(ys@)[k],
                    ) by {
                        assert(veq(xs@[k]@, ys@[k]@));
                    }
                }
                true
            },
            (DataValue::Handle(x), DataValue::Handle(y)) => *x == *y,
            (DataValue::Object(xs), DataValue::Object(ys)) => {
                proof {
                    lemma_views_of_pairs(xs@);
                    lemma_views_of_pairs(ys@);
                }
                let ghost xsv = views_of_pairs(xs@);
                let ghost ysv = views_of_pairs(ys@);
                // Every first binding here must match a binding there.
                let mut i: usize = 0;
                while i < xs.len()
                    invariant
                        i <= xs.len(),
                        forall|i1: int| 0 <= i1 < i && first_binding(xsv, i1)
                            ==> obj_entry_matched(xsv, ysv, i1),
                    decreases xs.len() - i,
                {
                    proof {
                        assert(decreases_to!(*self => *xs));
                        assert(decreases_to!(*xs => xs@));
                        assert(decreases_to!(xs@ => xs@[i as int]));
                        assert(decreases_to!(xs@[i as int] => xs@[i as int].1));
                    }
                    // Skip entries an earlier binding of the same name shadows.
                    let mut shadowed = false;
                    let mut i2: usize = 0;
                    while i2 < i
                        invariant
                            i2 <= i,
                            i < xs.len(),
                            shadowed ==> !first_binding(xsv, i as int),
                            !shadowed ==> (forall|i3: int| 0 <= i3 < i2 ==> (#[trigger] xsv[
                                i3]).0 != xsv[i as int].0),
                        decreases i - i2,
                    {
                        if xs[i2].0 == xs[i].0 {
                            shadowed = true;
                        }
                        i2 = i2 + 1;
                    }
                    if !shadowed {
                        proof {
                            assert(first_binding(xsv, i as int));
                        }
                        // The first binding of the same name over there.
                        let mut j: usize = 0;
                        let mut found = false;
                        while j < ys.len()
                            invariant
                                j <= ys.len(),
                                i < xs.len(),
                                !found,
                                forall|j1: int| 0 <= j1 < j ==> (#[trigger] ysv[j1]).0 != xsv[
                                    i as int].0,
                            decreases ys.len() - j,
                        {
                            if ys[j].0 == xs[i].0 {
                                found = true;
                                break;
                            }
                            j = j + 1;
                        }
                        if !found {
                            proof {
                                assert(!obj_entry_matched(xsv, ysv, i as int));
                                assert(!obj_covers(xsv, ysv));
                                assert(!veq(self@, other@));
                            }
                            return false;
                        }
                        proof {
                            assert(ysv[j as int].0 == xsv[i as int].0);
                            assert(first_binding(ysv, j as int));
                        }
                        if !xs[i].1.equals(&ys[j].1) {
                            proof {
                                assert forall|j2: int| 0 <= j2 < ysv.len() && first_binding(
                                    ysv,
                                    j2,
                                ) && (#[trigger] ysv[j2]).0 == xsv[i as int].0 implies !veq(
                                    xsv[i as int].1,
                                    ysv[j2].1,
                                ) by {
                                    lemma_first_binding_unique(ysv, j as int, j2);
                                }
                                assert(!obj_entry_matched(xsv, ysv, i as int));
                                assert(!obj_covers(xsv, ysv));
                                assert(!veq(self@, other@));
                            }
                            return false;
                        }
                        proof {
                            assert(obj_entry_matched(xsv, ysv, i as int));
                        }
                    }
                    i = i + 1;
                }
                proof {
                    assert(obj_covers(xsv, ysv));
                }
                // Every name bound there must be bound here too.
                let mut j: usize = 0;
                while j < ys.len()
                    invariant
                        j <= ys.len(),
                        obj_covers(xsv, ysv),
                        forall|j1: int| 0 <= j1 < j && first_binding(ysv, j1) ==> (exists|
                            i1: int,
                        |
                            0 <= i1 < xsv.len() && first_binding(xsv, i1) && (#[trigger] xsv[
                            i1]).0 == ysv[j1].0),
                    decreases ys.len() - j,
                {
                    let mut i1: usize = 0;
                    let mut found = false;
                    while i1 < xs.len()
                        invariant
                            i1 <= xs.len(),
                            j < ys.len(),
                            !found,
                            forall|i3: int| 0 <= i3 < i1 ==> (#[trigger] xsv[i3]).0 != ysv[
                                j as int].0,
                        decreases xs.len() - i1,
                    {
                        if xs[i1].0 == ys[j].0 {
                            found = true;
                            break;
                        }
                        i1 = i1 + 1;
                    }
                    if !found {
                        // The name is bound there but nowhere here, so its
                        // first binding over there has no match.
                        proof {
                            lemma_first_binding_exists(ysv, j as int);
                            let j0 = choose|j0: int| 0 <= j0 <= j && first_binding(ysv, j0)
                                && (#[trigger] ysv[j0]).0 == ysv[j as int].0;
                            assert(forall|i9: int| 0 <= i9 < xsv.len() ==> (#[trigger] xsv[
                                i9]).0 != ysv[j0].0);
                            assert(!obj_names_covered(xsv, ysv));
                            assert(!veq(self@, other@));
                        }
                        return false;
                    }
                    proof {
                        if first_binding(ysv, j as int) {
                            assert(first_binding(xsv, i1 as int));
                        }
                    }
                    j = j + 1;
                }
                proof {
                    assert(obj_names_covered(xsv, ysv));
                    assert(veq(self@, other@));
                }
                true
            },
            (DataValue::Agent(t, x), DataValue::Agent(u, y)) => *t == *u && *x == *y,
            (DataValue::Null, DataValue::Null) => true,
            _ => false,
        }
    }

    /// Casts this value to `to_type`: the identity cast on matching types,
    /// the absent value to `false`, integer to float, float to integer
    /// truncated toward zero; any other pair fails with the two types.
    pub fn try_cast(&self, to_type: DataType) -> (r: Result<DataValue, (DataType, DataType)>)
        ensures
            cast_result_matches(r, try_cast_spec(self@, to_type)),
    {
        if self.get_type() == to_type {
            return Ok(self.duplicate());
        }
        match (self, &to_type) {
            (DataValue::Null, DataType::Boolean) => Ok(DataValue::Boolean(false)),
            (DataValue::Integer(x), DataType::Float) => Ok(
                DataValue::Float(crate::float_ops::int_to_float(*x)),
            ),
            (DataValue::Float(b), DataType::Integer) => Ok(
                DataValue::Integer(crate::float_ops::float_to_int(*b)),
            ),
            _ => Err((self.get_type(), to_type)),
        }
    }
}

} // verus!
