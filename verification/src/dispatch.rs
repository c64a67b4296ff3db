//! Evaluation of one atomic operation against its gathered inputs, as
//! the catalog's table specifies: arity and type validation first, then
//! the operation's effect on the inputs, the node's stored value, the
//! scope's registries, or the modeled outside world.
use vstd::prelude::*;
use crate::agent::{AgentArgs, AgentErr, AgentType};
use crate::arith::{ArithErrV, add_vals, arith_result_matches, div_vals, mul_vals, pow_vals,
    rem_vals, sub_vals};
use crate::errors::EvalError;
use crate::evaluator::{Engine, engine_wf};
use crate::ids::NodeId;
use crate::interp::EvalOutcome;
use crate::evaluator::step_frame;
use crate::iobuf::IoBuffer;
use crate::nodes::{
    AgentAction, AtomicBinOp, AtomicIo, AtomicLogic, AtomicType, AtomicUnaryOp, ControlFlow,
    IoType, VarAction,
};
use crate::regex_ops::{bytes_to_string, replace_first, string_to_bytes};
use crate::value::{DataType, DataValue, ValView, veq};

verus! {

broadcast use crate::evaluator::lemma_step_frame_trans;

/// What printing a list of values writes: each display form, each
/// followed by a line break, in order.
pub open spec fn printed_of(vs: Seq<ValView>) -> Seq<char>
    decreases vs.len(),
{
    if vs.len() == 0 {
        Seq::empty()
    } else {
        printed_of(vs.drop_last()) + crate::display::display_of(vs.last()) + seq!['\n']
    }
}

/// The boolean a value shape casts to, when the cast is defined.
pub open spec fn bool_of_cast(v: ValView) -> Option<bool> {
    match crate::value::try_cast_spec(v, DataType::Boolean) {
        Ok(w) => match w {
            ValView::BooleanV(b) => Some(b),
            _ => None,
        },
        Err(_) => None,
    }
}

/// The booleans a whole input list casts to, when every cast is defined.
pub open spec fn bools_of(vs: Seq<ValView>) -> Option<Seq<bool>>
    decreases vs.len(),
{
    if vs.len() == 0 {
        Some(Seq::empty())
    } else {
        match (bools_of(vs.drop_last()), bool_of_cast(vs.last())) {
            (Some(bs), Some(b)) => Some(bs.push(b)),
            _ => None,
        }
    }
}

/// The left fold of a logical operation over at least one boolean.
pub open spec fn fold_logic(op: AtomicLogic, bs: Seq<bool>) -> bool
    decreases bs.len(),
{
    if bs.len() <= 1 {
        bs[0]
    } else {
        let acc = fold_logic(op, bs.drop_last());
        match op {
            AtomicLogic::And => acc && bs.last(),
            AtomicLogic::Or => acc || bs.last(),
            AtomicLogic::Xor => acc ^ bs.last(),
            _ => acc,
        }
    }
}

/// `bools_of` maps the casts pointwise.
pub proof fn lemma_bools_of(vs: Seq<ValView>)
    ensures
        bools_of(vs) matches Some(bs) ==> bs.len() == vs.len() && (forall|i: int|
            0 <= i < vs.len() ==> Some((#[trigger] bs[i])) == bool_of_cast(vs[i])),
        (forall|i: int| 0 <= i < vs.len() ==> (#[trigger] bool_of_cast(vs[i])) is Some)
            ==> bools_of(vs) is Some,
    decreases vs.len(),
{
    if vs.len() > 0 {
        lemma_bools_of(vs.drop_last());
        if forall|i: int| 0 <= i < vs.len() ==> (#[trigger] bool_of_cast(vs[i])) is Some {
            assert forall|i: int| 0 <= i < vs.drop_last().len() implies (#[trigger] bool_of_cast(
                vs.drop_last()[i],
            )) is Some by {
                assert(vs.drop_last()[i] == vs[i]);
            }
        }
        if bools_of(vs) is Some {
            let bs = bools_of(vs)->Some_0;
            assert forall|i: int| 0 <= i < vs.len() implies Some((#[trigger] bs[i]))
                == bool_of_cast(vs[i]) by {
                if i < vs.len() - 1 {
                    assert(vs.drop_last()[i] == vs[i]);
                }
            }
        }
    }
}

/// Whether a binary-operation result list matches the one specified
/// value or error.
pub open spec fn bin_result_matches(
    r: Result<Vec<DataValue>, EvalError>,
    s: Result<ValView, ArithErrV>,
) -> bool {
    match (r, s) {
        (Ok(vs), Ok(w)) => vs@.len() == 1 && vs@[0]@ == w,
        (Err(EvalError::MathError(a)), Err(b)) => arith_result_matches(
            Err(a),
            Err::<ValView, ArithErrV>(b),
        ),
        _ => false,
    }
}

/// The specified outcome of one binary arithmetic operation.
pub open spec fn bin_op_spec(op: AtomicBinOp, a: ValView, b: ValView) -> Result<
    ValView,
    ArithErrV,
> {
    match op {
        AtomicBinOp::Add => add_vals(a, b),
        AtomicBinOp::Sub => sub_vals(a, b),
        AtomicBinOp::Mul => mul_vals(a, b),
        AtomicBinOp::Div => div_vals(a, b),
        AtomicBinOp::Mod => rem_vals(a, b),
        AtomicBinOp::Pow => pow_vals(a, b),
    }
}

impl Engine {
    /// Applies one binary arithmetic operation to exactly two inputs;
    /// any other arity is the arity error.
    pub fn eval_bin_op(op: AtomicBinOp, inputs: &Vec<DataValue>) -> (r: Result<
        Vec<DataValue>,
        EvalError,
    >)
        ensures
            inputs@.len() != 2 ==> (r matches Err(e) && e matches EvalError::IncorrectInputCount),
            inputs@.len() == 2 ==> bin_result_matches(r, bin_op_spec(op, inputs@[0]@, inputs@[1]@)),
    {
        if inputs.len() != 2 {
            return Err(EvalError::IncorrectInputCount);
        }
        let a = &inputs[0];
        let b = &inputs[1];
        let res = match op {
            AtomicBinOp::Add => a.add(b),
            AtomicBinOp::Sub => a.sub(b),
            AtomicBinOp::Mul => a.mul(b),
            AtomicBinOp::Div => a.div(b),
            AtomicBinOp::Mod => a.rem(b),
            AtomicBinOp::Pow => a.pow(b),
        };
        match res {
            Ok(v) => {
                let mut out: Vec<DataValue> = Vec::new();
                out.push(v);
                Ok(out)
            },
            Err(e) => Err(EvalError::MathError(e)),
        }
    }

    /// Negates every input by multiplying it with the integer minus one.
    #[verifier::loop_isolation(false)]
    pub fn eval_unary(op: AtomicUnaryOp, inputs: &Vec<DataValue>) -> (r: Result<
        Vec<DataValue>,
        EvalError,
    >)
        ensures
            (r matches Ok(vs) ==> vs@.len() == inputs@.len()),
            (r matches Ok(vs) ==> forall|i: int| 0 <= i < vs@.len()
                ==> (mul_vals(inputs@[i]@, ValView::IntegerV(-1i64)) matches Ok(w)
                && (#[trigger] vs@[i])@ == w)),
    {
        match op {
            AtomicUnaryOp::Neg => {
                let minus_one = DataValue::Integer(-1);
                let mut out: Vec<DataValue> = Vec::new();
                let mut i: usize = 0;
                while i < inputs.len()
                    invariant
                        i <= inputs@.len(),
                        out@.len() == i,
                        forall|j: int| 0 <= j < i ==> (mul_vals(
                            inputs@[j]@,
                            ValView::IntegerV(-1i64),
                        ) matches Ok(w) && (#[trigger] out@[j])@ == w),
                    decreases inputs@.len() - i,
                {
                    match inputs[i].mul(&minus_one) {
                        Ok(v) => {
                            out.push(v);
                        },
                        Err(e) => {
                            return Err(EvalError::MathError(e));
                        },
                    }
                    i = i + 1;
                }
                Ok(out)
            },
        }
    }

    /// The logical operations: equality compares its two inputs
    /// structurally; the other operations cast every input to a boolean
    /// first, then negate each or fold them all left to right.
    #[verifier::loop_isolation(false)]
    pub fn eval_logic(op: AtomicLogic, inputs: &Vec<DataValue>) -> (r: Result<
        Vec<DataValue>,
        EvalError,
    >)
        ensures
            op == AtomicLogic::Eq && inputs@.len() == 2 ==> (r matches Ok(vs) && vs@.len() == 1
                && vs@[0]@ == ValView::BooleanV(veq(inputs@[0]@, inputs@[1]@))),
            op == AtomicLogic::Eq && inputs@.len() != 2 ==> (r matches Err(e)
                && e matches EvalError::IncorrectInputCount),
            op != AtomicLogic::Eq && bools_of(crate::value::views_of_seq(inputs@)) is None ==> (
            r matches Err(e) && (exists|i: int|
                0 <= i < crate::value::views_of_seq(inputs@).len() && (#[trigger] bool_of_cast(
                    crate::value::views_of_seq(inputs@)[i],
                )) is None && (forall|j: int| 0 <= j < i ==> (#[trigger] bool_of_cast(
                    crate::value::views_of_seq(inputs@)[j],
                )) is Some) && e == EvalError::CastError(
                    (
                        crate::value::type_of_view(crate::value::views_of_seq(inputs@)[i]),
                        DataType::Boolean,
                    ),
                ))),
            op == AtomicLogic::Not && (bools_of(crate::value::views_of_seq(inputs@))
                matches Some(bs) && (r matches Ok(vs) && vs@.len() == bs.len() && (forall|i: int|
                0 <= i < bs.len() ==> (#[trigger] vs@[i])@ == ValView::BooleanV(!bs[i]))))
                || op == AtomicLogic::Not && bools_of(crate::value::views_of_seq(inputs@))
                is None || op != AtomicLogic::Not,
            (op == AtomicLogic::And || op == AtomicLogic::Or || op == AtomicLogic::Xor)
                && (bools_of(crate::value::views_of_seq(inputs@)) matches Some(bs) && (if bs.len()
                == 0 {
                r matches Err(e) && e matches EvalError::IncorrectInputCount
            } else {
                r matches Ok(vs) && vs@.len() == 1 && vs@[0]@ == ValView::BooleanV(
                    fold_logic(op, bs),
                )
            })) || bools_of(crate::value::views_of_seq(inputs@)) is None || op == AtomicLogic::Eq
                || op == AtomicLogic::Not,
    {
        proof {
            crate::value::lemma_views_of_seq(inputs@);
            lemma_bools_of(crate::value::views_of_seq(inputs@));
        }
        let ghost vs = crate::value::views_of_seq(inputs@);
        if matches!(op, AtomicLogic::Eq) {
            if inputs.len() != 2 {
                return Err(EvalError::IncorrectInputCount);
            }
            let b = inputs[0].equals(&inputs[1]);
            let mut out: Vec<DataValue> = Vec::new();
            out.push(DataValue::Boolean(b));
            return Ok(out);
        }
        let mut bools: Vec<bool> = Vec::new();
        let mut i: usize = 0;
        while i < inputs.len()
            invariant
                i <= inputs@.len(),
                bools@.len() == i,
                forall|j: int| 0 <= j < i ==> Some((#[trigger] bools@[j])) == bool_of_cast(vs[j]),
            decreases inputs@.len() - i,
        {
            match inputs[i].try_cast(DataType::Boolean) {
                Ok(DataValue::Boolean(b)) => {
                    proof {
                        assert(vs[i as int] == inputs@[i as int]@);
                    }
                    bools.push(b);
                },
                Ok(other) => {
                    proof {
                        assert(vs[i as int] == inputs@[i as int]@);
                        assert(false);
                    }
                    return Err(EvalError::CastError((DataType::Null, DataType::Boolean)));
                },
                Err(t) => {
                    proof {
                        assert(vs[i as int] == inputs@[i as int]@);
                        assert(bool_of_cast(vs[i as int]) is None);
                        if bools_of(vs) is Some {
                            let bs = bools_of(vs)->Some_0;
                            assert(Some(bs[i as int]) == bool_of_cast(vs[i as int]));
                        }
                        assert forall|j: int| 0 <= j < i implies (#[trigger] bool_of_cast(
                            vs[j],
                        )) is Some by {
                            assert(Some(bools@[j]) == bool_of_cast(vs[j]));
                        }
                        assert(t == (crate::value::type_of_view(vs[i as int]), DataType::Boolean));
                    }
                    return Err(EvalError::CastError(t));
                },
            }
            i = i + 1;
        }
        proof {
            assert forall|j: int| 0 <= j < vs.len() implies (#[trigger] bool_of_cast(vs[j]))
                is Some by {
                assert(Some(bools@[j]) == bool_of_cast(vs[j]));
            }
            let bs = bools_of(vs)->Some_0;
            assert forall|j: int| 0 <= j < bs.len() implies bs[j] == bools@[j] by {
                assert(Some(bs[j]) == bool_of_cast(vs[j]));
                assert(Some(bools@[j]) == bool_of_cast(vs[j]));
            }
            assert(bs =~= bools@);
        }
        match op {
            AtomicLogic::Not => {
                let mut out: Vec<DataValue> = Vec::new();
                let mut k: usize = 0;
                while k < bools.len()
                    invariant
                        k <= bools@.len(),
                        out@.len() == k,
                        forall|j: int| 0 <= j < k ==> (#[trigger] out@[j])@ == ValView::BooleanV(
                            !bools@[j],
                        ),
                    decreases bools@.len() - k,
                {
                    out.push(DataValue::Boolean(!bools[k]));
                    k = k + 1;
                }
                Ok(out)
            },
            _ => {
                if bools.len() == 0 {
                    return Err(EvalError::IncorrectInputCount);
                }
                let mut acc = bools[0];
                let mut k: usize = 1;
                while k < bools.len()
                    invariant
                        1 <= k <= bools@.len(),
                        bools@.len() >= 1,
                        acc == fold_logic(op, bools@.take(k as int)),
                    decreases bools@.len() - k,
                {
                    acc = match op {
                        AtomicLogic::And => acc && bools[k],
                        AtomicLogic::Or => acc || bools[k],
                        AtomicLogic::Xor => acc ^ bools[k],
                        _ => acc,
                    };
                    proof {
                        assert(bools@.take(k + 1).drop_last() =~= bools@.take(k as int));
                        assert(bools@.take(k + 1).last() == bools@[k as int]);
                    }
                    k = k + 1;
                }
                proof {
                    assert(bools@.take(bools@.len() as int) =~= bools@);
                }
                let mut out: Vec<DataValue> = Vec::new();
                out.push(DataValue::Boolean(acc));
                Ok(out)
            },
        }
    }

    /// One atomic operation against its inputs, as the catalog's table
    /// specifies. The pure operations are pinned down here: a value node
    /// yields its value, a binary operation follows the arithmetic
    /// specification, a cast follows the cast specification, and the
    /// absence test yields whether its one input is absent.
    pub fn eval_atomic(
        &mut self,
        atomic_type: AtomicType,
        scope: usize,
        node: usize,
        inputs: Vec<DataValue>,
        fuel: u64,
    ) -> (r: Result<EvalOutcome, EvalError>)
        requires
            engine_wf(*old(self)),
            scope < old(self).scopes@.len(),
            node < old(self).scopes@[scope as int].nodes@.len(),
        ensures
            step_frame(*old(self), *final(self)),
            (atomic_type@ matches crate::nodes::AtomicTypeV::ValueV(v) && (r matches Ok(o)
                && o matches EvalOutcome::Produced(vs) && vs@.len() == 1 && vs@[0]@ == v)) || !(
            atomic_type@ matches crate::nodes::AtomicTypeV::ValueV(_)),
            (atomic_type matches AtomicType::BinOp(op) && inputs@.len() == 2 && (match bin_op_spec(
                op,
                inputs@[0]@,
                inputs@[1]@,
            ) {
                Ok(w) => r matches Ok(o) && o matches EvalOutcome::Produced(vs) && vs@.len() == 1
                    && vs@[0]@ == w,
                Err(_) => r matches Err(e) && e matches EvalError::MathError(_),
            })) || !(atomic_type matches AtomicType::BinOp(_) && inputs@.len() == 2),
            (atomic_type matches AtomicType::IsNone && inputs@.len() == 1 && (r matches Ok(o)
                && o matches EvalOutcome::Produced(vs) && vs@.len() == 1 && vs@[0]@
                == ValView::BooleanV(inputs@[0]@ is NullV))) || !(atomic_type
                matches AtomicType::IsNone && inputs@.len() == 1),
            (atomic_type matches AtomicType::Cast(t) && inputs@.len() >= 1 && (match
                crate::value::try_cast_spec(inputs@[0]@, t) {
                Ok(w) => r matches Ok(o) && o matches EvalOutcome::Produced(vs) && vs@.len() == 1
                    && vs@[0]@ == w,
                Err(pair) => r matches Err(e) && e matches EvalError::CastError(got) && got
                    == pair,
            })) || !(atomic_type matches AtomicType::Cast(_) && inputs@.len() >= 1),
            atomic_type is Replace && inputs@.len() != 3 ==> (r matches Err(e) && e
                matches EvalError::IncorrectInputCount),
            atomic_type is IsNone && inputs@.len() != 1 ==> (r matches Err(e) && e
                matches EvalError::IncorrectInputCount),
            atomic_type is Print ==> (r matches Ok(o) && o matches EvalOutcome::Produced(vs)
                && vs@.len() == 1 && vs@[0]@ == ValView::NullV) && final(self).stdout@
                == old(self).stdout@ + printed_of(crate::value::views_of_seq(inputs@)),
            (atomic_type is Replace && inputs@.len() == 3 && (inputs@[0]@
                matches ValView::StringV(pat) && inputs@[1]@ matches ValView::StringV(rep)
                && inputs@[2]@ matches ValView::StringV(text) && (if
                crate::regex_ops::regex_compiles(pat) {
                r matches Ok(o) && o matches EvalOutcome::Produced(vs) && vs@.len() == 1
                    && vs@[0]@ == ValView::StringV(
                    crate::regex_ops::regex_replace_first(pat, text, rep),
                )
            } else {
                r matches Err(e) && e matches EvalError::RegexError(p) && p@ == pat
            }))) || !(atomic_type is Replace && inputs@.len() == 3 && inputs@[0]@ is StringV
                && inputs@[1]@ is StringV && inputs@[2]@ is StringV),
        decreases fuel, 2int,
    {
        match atomic_type {
            AtomicType::Print => {
                proof {
                    crate::value::lemma_views_of_seq(inputs@);
                }
                let ghost vs = crate::value::views_of_seq(inputs@);
                let mut i: usize = 0;
                while i < inputs.len()
                    invariant
                        i <= inputs@.len(),
                        engine_wf(*self),
                        step_frame(*old(self), *self),
                        vs == crate::value::views_of_seq(inputs@),
                        vs.len() == inputs@.len(),
                        self.stdout@ == old(self).stdout@ + printed_of(vs.take(i as int)),
                    decreases inputs@.len() - i,
                {
                    crate::display::push_display(&inputs[i], &mut self.stdout);
                    self.stdout.push('\n');
                    proof {
                        crate::value::lemma_views_of_seq(inputs@);
                        assert(vs.take(i + 1).drop_last() =~= vs.take(i as int));
                        assert(vs.take(i + 1).last() == vs[i as int]);
                        assert(vs[i as int] == inputs@[i as int]@);
                        assert(self.stdout@ =~= old(self).stdout@ + printed_of(vs.take(i + 1)));
                    }
                    i = i + 1;
                }
                proof {
                    assert(vs.take(vs.len() as int) =~= vs);
                }
                let mut out: Vec<DataValue> = Vec::new();
                out.push(DataValue::Null);
                Ok(EvalOutcome::Produced(out))
            },
            AtomicType::Value(v) => {
                let mut out: Vec<DataValue> = Vec::new();
                out.push(v);
                Ok(EvalOutcome::Produced(out))
            },
            AtomicType::BinOp(op) => {
                match Self::eval_bin_op(op, &inputs) {
                    Ok(vs) => Ok(EvalOutcome::Produced(vs)),
                    Err(e) => Err(e),
                }
            },
            AtomicType::UnaryOp(op) => {
                match Self::eval_unary(op, &inputs) {
                    Ok(vs) => Ok(EvalOutcome::Produced(vs)),
                    Err(e) => Err(e),
                }
            },
            AtomicType::LogicalOp(op) => {
                match Self::eval_logic(op, &inputs) {
                    Ok(vs) => Ok(EvalOutcome::Produced(vs)),
                    Err(e) => Err(e),
                }
            },
            AtomicType::IsNone => {
                if inputs.len() != 1 {
                    return Err(EvalError::IncorrectInputCount);
                }
                let mut out: Vec<DataValue> = Vec::new();
                out.push(DataValue::Boolean(inputs[0].is_none()));
                Ok(EvalOutcome::Produced(out))
            },
            AtomicType::Cast(to_type) => {
                if inputs.len() < 1 {
                    return Err(EvalError::IncorrectInputCount);
                }
                match inputs[0].try_cast(to_type) {
                    Ok(v) => {
                        let mut out: Vec<DataValue> = Vec::new();
                        out.push(v);
                        Ok(EvalOutcome::Produced(out))
                    },
                    Err(t) => Err(EvalError::CastError(t)),
                }
            },
            AtomicType::Replace => {
                if inputs.len() != 3 {
                    return Err(EvalError::IncorrectInputCount);
                }
                match (&inputs[0], &inputs[1], &inputs[2]) {
                    (
                        DataValue::String(pattern),
                        DataValue::String(replacement),
                        DataValue::String(text),
                    ) => {
                        match replace_first(
                            pattern.as_str(),
                            text.as_str(),
                            replacement.as_str(),
                        ) {
                            Some(s) => {
                                let mut out: Vec<DataValue> = Vec::new();
                                out.push(DataValue::String(s));
                                Ok(EvalOutcome::Produced(out))
                            },
                            None => Err(EvalError::RegexError(pattern.clone())),
                        }
                    },
                    _ => {
                        let mut got: Vec<DataType> = Vec::new();
                        let mut i: usize = 0;
                        while i < inputs.len()
                            invariant
                                i <= inputs@.len(),
                            decreases inputs@.len() - i,
                        {
                            got.push(inputs[i].get_type());
                            i = i + 1;
                        }
                        let mut expected: Vec<DataType> = Vec::new();
                        expected.push(DataType::String);
                        expected.push(DataType::String);
                        expected.push(DataType::String);
                        Err(EvalError::IncorrectTyping { got, expected })
                    },
                }
            },
            AtomicType::Variable(action, name) => {
                match action {
                    VarAction::Store => {
                        if inputs.len() != 1 {
                            return Err(EvalError::IncorrectInputCount);
                        }
                        let mut it = inputs;
                        let v = match it.pop() {
                            Some(v) => v,
                            None => DataValue::Null,
                        };
                        self.var_set(scope, &name, v);
                        Ok(EvalOutcome::Produced(Vec::new()))
                    },
                    VarAction::Get => {
                        let v = self.var_get(scope, &name);
                        let mut out: Vec<DataValue> = Vec::new();
                        out.push(v);
                        Ok(EvalOutcome::Produced(out))
                    },
                }
            },
            AtomicType::Control(control_flow) => {
                self.eval_control(control_flow, scope, node, inputs, fuel)
            },
            AtomicType::Io(io) => self.eval_io(io, scope, node, inputs),
            AtomicType::AgentOp(action) => self.eval_agent(action, scope, node, inputs),
        }
    }

    /// The control-flow operations: start reads the scope's delivered
    /// inputs, end passes its inputs through as the sink's outputs, an
    /// if-true drives its sub-graph to completion and discards the
    /// results, a while-true drains its loop body and asks for another
    /// cycle, and wait-for-init blocks its first invocation on the
    /// initializer's outputs.
    pub fn eval_control(
        &mut self,
        control_flow: ControlFlow,
        scope: usize,
        node: usize,
        inputs: Vec<DataValue>,
        fuel: u64,
    ) -> (r: Result<EvalOutcome, EvalError>)
        requires
            engine_wf(*old(self)),
            scope < old(self).scopes@.len(),
            node < old(self).scopes@[scope as int].nodes@.len(),
        ensures
            step_frame(*old(self), *final(self)),
            control_flow is Start ==> *final(self) == *old(self) && (r matches Ok(o)
                && o matches EvalOutcome::Produced(vs) && crate::evaluator::views_of_values(vs@)
                == crate::evaluator::views_of_values(
                old(self).scopes@[scope as int].inputs@,
            )),
            control_flow is End ==> *final(self) == *old(self) && r == Ok::<
                EvalOutcome,
                EvalError,
            >(EvalOutcome::Produced(inputs)),
            (control_flow is While || control_flow is If) && inputs@.len() == 0 ==> (r
                matches Err(e) && e matches EvalError::IncorrectInputCount),
            (control_flow is While || control_flow is If) && inputs@.len() >= 1 && !(
            inputs@[0]@ is BooleanV) ==> (r matches Err(e) && e
                matches EvalError::IncorrectTyping { got, expected } && expected@ == seq![
                DataType::Boolean,
            ] && got@.len() == inputs@.len() && (forall|j: int| 0 <= j < got@.len()
                ==> (#[trigger] got@[j]) == crate::value::type_of_view(inputs@[j]@))),
            control_flow is While && inputs@.len() >= 1 && inputs@[0]@ == ValView::BooleanV(
                false,
            ) ==> *final(self) == *old(self) && (r matches Ok(o) && o
                matches EvalOutcome::Produced(vs) && vs@.len() == 1 && vs@[0]@
                == ValView::NullV),
            control_flow is While && inputs@.len() >= 1 && inputs@[0]@ == ValView::BooleanV(
                true,
            ) ==> (r is Err || r == Ok::<EvalOutcome, EvalError>(EvalOutcome::Retrigger)),
            control_flow is If && inputs@.len() >= 1 && inputs@[0]@ is BooleanV ==> (r is Err
                || (r matches Ok(o) && o matches EvalOutcome::Produced(vs) && vs@.len() == 1
                && vs@[0]@ == ValView::NullV)),
            control_flow is WaitForInit && old(self).scopes@[scope as int].nodes@[
                node as int].stored is Some ==> *final(self) == *old(self) && (if inputs@.len()
                >= 1 && !(inputs@[0]@ is NullV) {
                r == Ok::<EvalOutcome, EvalError>(EvalOutcome::Produced(inputs))
            } else {
                r matches Ok(o) && o matches EvalOutcome::Produced(vs) && vs@.len() == 0
            }),
            control_flow is WaitForInit && old(self).scopes@[scope as int].nodes@[
                node as int].stored is None && fuel > 0 ==> (r is Err || (r matches Ok(o) && o
                is Produced && (final(self).scopes@[scope as int].nodes@[node as int].stored
                matches Some(b) && b@ == ValView::BooleanV(true)))),
        decreases fuel, 1int,
    {
        match control_flow {
            ControlFlow::Start => Ok(EvalOutcome::Produced(self.get_inputs(scope))),
            ControlFlow::End => Ok(EvalOutcome::Produced(inputs)),
            ControlFlow::If(edge) => {
                if inputs.len() < 1 {
                    return Err(EvalError::IncorrectInputCount);
                }
                match &inputs[0] {
                    DataValue::Boolean(cond) => {
                        if *cond && fuel > 0 {
                            match self.find_node(scope, edge.src) {
                                Ok(k) => {
                                    match self.listen_all(scope, k, fuel - 1) {
                                        Ok(_) => {},
                                        Err(e) => {
                                            return Err(e);
                                        },
                                    }
                                },
                                Err(e) => {
                                    return Err(e);
                                },
                            }
                        }
                        let mut out: Vec<DataValue> = Vec::new();
                        out.push(DataValue::Null);
                        Ok(EvalOutcome::Produced(out))
                    },
                    _ => {
                        let mut got: Vec<DataType> = Vec::new();
                        let mut i: usize = 0;
                        while i < inputs.len()
                            invariant
                                i <= inputs@.len(),
                                got@.len() == i,
                                forall|j: int| 0 <= j < i ==> (#[trigger] got@[j])
                                    == crate::value::type_of_view(inputs@[j]@),
                            decreases inputs@.len() - i,
                        {
                            got.push(inputs[i].get_type());
                            i = i + 1;
                        }
                        let mut expected: Vec<DataType> = Vec::new();
                        expected.push(DataType::Boolean);
                        proof {
                            assert(expected@ =~= seq![DataType::Boolean]);
                        }
                        Err(EvalError::IncorrectTyping { got, expected })
                    },
                }
            },
            ControlFlow::While(edge) => {
                if inputs.len() < 1 {
                    return Err(EvalError::IncorrectInputCount);
                }
                match &inputs[0] {
                    DataValue::Boolean(cond) => {
                        if *cond {
                            if fuel == 0 {
                                return Err(EvalError::Closed);
                            }
                            match self.find_node(scope, edge.src) {
                                Ok(k) => {
                                    match self.listen_all(scope, k, fuel - 1) {
                                        Ok(_) => {},
                                        Err(e) => {
                                            return Err(e);
                                        },
                                    }
                                },
                                Err(e) => {
                                    return Err(e);
                                },
                            }
                            Ok(EvalOutcome::Retrigger)
                        } else {
                            let mut out: Vec<DataValue> = Vec::new();
                            out.push(DataValue::Null);
                            Ok(EvalOutcome::Produced(out))
                        }
                    },
                    _ => {
                        let mut got: Vec<DataType> = Vec::new();
                        let mut i: usize = 0;
                        while i < inputs.len()
                            invariant
                                i <= inputs@.len(),
                                got@.len() == i,
                                forall|j: int| 0 <= j < i ==> (#[trigger] got@[j])
                                    == crate::value::type_of_view(inputs@[j]@),
                            decreases inputs@.len() - i,
                        {
                            got.push(inputs[i].get_type());
                            i = i + 1;
                        }
                        let mut expected: Vec<DataType> = Vec::new();
                        expected.push(DataType::Boolean);
                        proof {
                            assert(expected@ =~= seq![DataType::Boolean]);
                        }
                        Err(EvalError::IncorrectTyping { got, expected })
                    },
                }
            },
            ControlFlow::WaitForInit(edge) => {
                let stored = self.get_stored(scope, node);
                match stored {
                    None => {
                        if fuel == 0 {
                            return Err(EvalError::Closed);
                        }
                        let vs = match self.find_node(scope, edge.src) {
                            Ok(k) => {
                                match self.listen_all(scope, k, fuel - 1) {
                                    Ok(vs) => vs,
                                    Err(e) => {
                                        return Err(e);
                                    },
                                }
                            },
                            Err(e) => {
                                return Err(e);
                            },
                        };
                        if scope < self.scopes.len() && node < self.scopes[scope].nodes.len() {
                            let _ = self.set_stored(scope, node, DataValue::Boolean(true));
                        }
                        Ok(EvalOutcome::Produced(vs))
                    },
                    Some(_) => {
                        if inputs.len() >= 1 {
                            if inputs[0].is_none() {
                                Ok(EvalOutcome::Produced(Vec::new()))
                            } else {
                                Ok(EvalOutcome::Produced(inputs))
                            }
                        } else {
                            Ok(EvalOutcome::Produced(Vec::new()))
                        }
                    },
                }
            },
        }
    }

    /// The I/O operations over the modeled outside world: opens are
    /// memoized on the node, reads and writes go through the handle
    /// registry, and console input reads one line including its
    /// terminator. Reading a line takes the bytes up to and including
    /// the newline and strips the line end; reading `n` bytes yields
    /// exactly the bytes the handle had, as bytes; writing appends the
    /// encoding of the string to the handle.
    pub fn eval_io(
        &mut self,
        io: AtomicIo,
        scope: usize,
        node: usize,
        inputs: Vec<DataValue>,
    ) -> (r: Result<EvalOutcome, EvalError>)
        requires
            engine_wf(*old(self)),
            scope < old(self).scopes@.len(),
            node < old(self).scopes@[scope as int].nodes@.len(),
        ensures
            step_frame(*old(self), *final(self)),
            (io matches AtomicIo::Open(_) && old(self).scopes@[scope as int].nodes@[
                node as int].stored matches Some(x) && *final(self) == *old(self) && (r
                matches Ok(o) && o matches EvalOutcome::Produced(vs) && vs@.len() == 1
                && vs@[0]@ == x@)) || !(io is Open && old(self).scopes@[scope as int].nodes@[
                node as int].stored is Some),
            (io matches AtomicIo::Open(k) && k is File && old(self).scopes@[
                scope as int].nodes@[node as int].stored is None && inputs@.len() >= 1
                && (match crate::evaluator::name_lookup(
                old(self).files@,
                crate::display::display_of(inputs@[0]@),
            ) {
                None => r matches Err(e) && e matches EvalError::IoError(p) && p@
                    == crate::display::display_of(inputs@[0]@) && *final(self) == *old(self),
                Some(text) => {
                    let reg = final(self).scopes@[scope as int].io_registry@;
                    &&& reg.len() == old(self).scopes@[scope as int].io_registry@.len() + 1
                    &&& reg.last().1.input@ == crate::regex_ops::utf8_bytes_of(text@)
                    &&& reg.last().1.pos == 0
                    &&& reg.last().1.written@.len() == 0
                    &&& (r matches Ok(o) && o matches EvalOutcome::Produced(vs) && vs@.len()
                        == 1 && vs@[0]@ == ValView::HandleV(reg.last().0))
                    &&& (final(self).scopes@[scope as int].nodes@[node as int].stored
                        matches Some(sv) && sv@ == ValView::HandleV(reg.last().0))
                },
            })) || !(io matches AtomicIo::Open(k2) && k2 is File && old(self).scopes@[
                scope as int].nodes@[node as int].stored is None && inputs@.len() >= 1),
            (io matches AtomicIo::ConsoleInput && {
                let line = crate::iobuf::read_until_spec(
                    crate::iobuf::remaining(old(self).console),
                    seq![10u8],
                );
                &&& (if crate::regex_ops::utf8_valid(line) {
                    r matches Ok(o) && o matches EvalOutcome::Produced(vs) && vs@.len() == 1
                        && vs@[0]@ == ValView::StringV(crate::regex_ops::utf8_chars_of(line))
                } else {
                    r matches Err(e) && e matches EvalError::InvalidUtf8
                })
                &&& final(self).console.pos == old(self).console.pos + line.len()
                &&& final(self).console.input@ == old(self).console.input@
            }) || !(io is ConsoleInput),
            (io matches AtomicIo::GetLine && inputs@.len() >= 1 && (inputs@[0]@
                matches ValView::HandleV(h) && (match crate::registries::io_chain_pos(
                old(self).scopes@,
                scope as int,
                h,
            ) {
                Some(sp) => {
                    let raw = crate::iobuf::read_until_spec(
                        crate::iobuf::remaining(old(self).scopes@[sp.0].io_registry@[sp.1].1),
                        seq![10u8],
                    );
                    let line = crate::dispatch::strip_eol(raw);
                    &&& (if crate::regex_ops::utf8_valid(line) {
                        r matches Ok(o) && o matches EvalOutcome::Produced(vs) && vs@.len() == 1
                            && vs@[0]@ == ValView::StringV(crate::regex_ops::utf8_chars_of(line))
                    } else {
                        r matches Err(e) && e matches EvalError::InvalidUtf8
                    })
                    &&& final(self).scopes@[sp.0].io_registry@[sp.1].1.pos == old(self).scopes@[
                        sp.0].io_registry@[sp.1].1.pos + raw.len()
                    &&& final(self).scopes@[sp.0].io_registry@[sp.1].1.input@ == old(
                        self,
                    ).scopes@[sp.0].io_registry@[sp.1].1.input@
                    &&& final(self).scopes@[sp.0].io_registry@[sp.1].1.written@ == old(
                        self,
                    ).scopes@[sp.0].io_registry@[sp.1].1.written@
                },
                None => r matches Err(e) && e matches EvalError::IoNotFound(got) && got == h,
            }))) || !(io matches AtomicIo::GetLine && inputs@.len() >= 1 && inputs@[0]@
                is HandleV),
            (io matches AtomicIo::Read && inputs@.len() >= 2 && (inputs@[0]@
                matches ValView::HandleV(h) && inputs@[1]@ matches ValView::IntegerV(n)
                && (match crate::registries::io_chain_pos(old(self).scopes@, scope as int, h) {
                Some(sp) => {
                    let rem = crate::iobuf::remaining(
                        old(self).scopes@[sp.0].io_registry@[sp.1].1,
                    );
                    let want = if n <= 0 {
                        0int
                    } else if n as int <= rem.len() {
                        n as int
                    } else {
                        rem.len() as int
                    };
                    &&& r matches Ok(o) && o matches EvalOutcome::Produced(vs) && vs@.len()
                        == 1 && vs@[0]@ == ValView::ArrayV(bytes_as_values(rem.take(want)))
                    &&& final(self).scopes@[sp.0].io_registry@[sp.1].1.pos == old(self).scopes@[
                        sp.0].io_registry@[sp.1].1.pos + want
                    &&& final(self).scopes@[sp.0].io_registry@[sp.1].1.input@ == old(
                        self,
                    ).scopes@[sp.0].io_registry@[sp.1].1.input@
                    &&& final(self).scopes@[sp.0].io_registry@[sp.1].1.written@ == old(
                        self,
                    ).scopes@[sp.0].io_registry@[sp.1].1.written@
                },
                None => r matches Err(e) && e matches EvalError::IoNotFound(got) && got == h,
            }))) || !(io matches AtomicIo::Read && inputs@.len() >= 2 && inputs@[0]@
                is HandleV && inputs@[1]@ is IntegerV),
            (io matches AtomicIo::Write && inputs@.len() >= 2 && (inputs@[0]@
                matches ValView::HandleV(h) && inputs@[1]@ matches ValView::StringV(text)
                && (match crate::registries::io_chain_pos(old(self).scopes@, scope as int, h) {
                Some(sp) => r matches Ok(o) && o matches EvalOutcome::Produced(vs) && vs@.len()
                    == 1 && vs@[0]@ == ValView::NullV && final(self).scopes@[
                    sp.0].io_registry@[sp.1].1.written@ == old(self).scopes@[
                    sp.0].io_registry@[sp.1].1.written@ + crate::regex_ops::utf8_bytes_of(text),
                None => r matches Err(e) && e matches EvalError::IoNotFound(got) && got == h,
            }))) || !(io matches AtomicIo::Write && inputs@.len() >= 2 && inputs@[0]@
                is HandleV && inputs@[1]@ is StringV),
    {
        match io {
            AtomicIo::Open(io_type) => {
                let stored = self.get_stored(scope, node);
                match stored {
                    Some(x) => {
                        let mut out: Vec<DataValue> = Vec::new();
                        out.push(x);
                        Ok(EvalOutcome::Produced(out))
                    },
                    None => {
                        let handle: u128 = match io_type {
                            IoType::File => {
                                if inputs.len() < 1 {
                                    return Err(EvalError::IncorrectInputCount);
                                }
                                let path = display_value(&inputs[0]);
                                let text = match self.find_file(&path) {
                                    Some(t) => t,
                                    None => {
                                        return Err(EvalError::IoError(path));
                                    },
                                };
                                let bytes = string_to_bytes(text.as_str());
                                self.register_io(scope, IoBuffer::over(bytes))
                            },
                            IoType::TcpSocket => {
                                if inputs.len() < 2 {
                                    return Err(EvalError::IncorrectInputCount);
                                }
                                let key = join_host_port(&inputs[0], &inputs[1]);
                                let bytes = match self.find_socket(&key) {
                                    Some(b) => b,
                                    None => {
                                        return Err(EvalError::IoError(key));
                                    },
                                };
                                self.register_io(scope, IoBuffer::over(bytes))
                            },
                        };
                        if scope < self.scopes.len() && node < self.scopes[scope].nodes.len() {
                            let _ = self.set_stored(scope, node, DataValue::Handle(handle));
                        }
                        let mut out: Vec<DataValue> = Vec::new();
                        out.push(DataValue::Handle(handle));
                        Ok(EvalOutcome::Produced(out))
                    },
                }
            },
            AtomicIo::GetLine => {
                if inputs.len() < 1 {
                    return Err(EvalError::IncorrectInputCount);
                }
                match &inputs[0] {
                    DataValue::Handle(h) => {
                        let mut pattern: Vec<u8> = Vec::new();
                        pattern.push(10u8);
                        let bytes = match self.read_until(scope, *h, &pattern) {
                            Ok(b) => b,
                            Err(e) => {
                                return Err(e);
                            },
                        };
                        let trimmed = trim_line_end(bytes);
                        match bytes_to_string(trimmed) {
                            Some(s) => {
                                let mut out: Vec<DataValue> = Vec::new();
                                out.push(DataValue::String(s));
                                Ok(EvalOutcome::Produced(out))
                            },
                            None => Err(EvalError::InvalidUtf8),
                        }
                    },
                    other => {
                        let mut got: Vec<DataType> = Vec::new();
                        got.push(other.get_type());
                        let mut expected: Vec<DataType> = Vec::new();
                        expected.push(DataType::Handle);
                        Err(EvalError::IncorrectTyping { got, expected })
                    },
                }
            },
            AtomicIo::Read => {
                if inputs.len() < 2 {
                    return Err(EvalError::IncorrectInputCount);
                }
                match (&inputs[0], &inputs[1]) {
                    (DataValue::Handle(h), DataValue::Integer(size)) => {
                        let want: usize = if *size <= 0 {
                            0
                        } else if (*size as u64) > (usize::MAX as u64) {
                            usize::MAX
                        } else {
                            *size as usize
                        };
                        let bytes = match self.read_bytes(scope, *h, want) {
                            Ok(b) => b,
                            Err(e) => {
                                return Err(e);
                            },
                        };
                        proof {
                            if crate::registries::io_chain_pos(
                                old(self).scopes@,
                                scope as int,
                                *h,
                            ) is Some {
                                let sp = crate::registries::io_chain_pos(
                                    old(self).scopes@,
                                    scope as int,
                                    *h,
                                )->Some_0;
                                crate::registries::lemma_io_chain_pos_valid(
                                    old(self).scopes@,
                                    scope as int,
                                    *h,
                                );
                                let buf = old(self).scopes@[sp.0].io_registry@[sp.1].1;
                                let rem = crate::iobuf::remaining(buf);
                                vstd::std_specs::vec::axiom_spec_len(&buf.input);
                                assert(crate::iobuf::iobuf_wf(buf));
                                assert(buf.input@.len() <= usize::MAX);
                                assert(rem.len() <= usize::MAX);
                                let want_spec = if *size <= 0 {
                                    0int
                                } else if *size as int <= rem.len() {
                                    *size as int
                                } else {
                                    rem.len() as int
                                };
                                assert(bytes@ == rem.take(want_spec));
                            }
                        }
                        let mut arr: Vec<DataValue> = Vec::new();
                        let mut i: usize = 0;
                        while i < bytes.len()
                            invariant
                                i <= bytes@.len(),
                                arr@.len() == i,
                                forall|j: int| 0 <= j < i ==> (#[trigger] arr@[j])@
                                    == ValView::ByteV(bytes@[j]),
                            decreases bytes@.len() - i,
                        {
                            arr.push(DataValue::Byte(bytes[i]));
                            i = i + 1;
                        }
                        proof {
                            crate::value::lemma_views_of_seq(arr@);
                            let vs2 = bytes_as_values(bytes@);
                            assert forall|j: int| 0 <= j < arr@.len() implies
                                crate::value::views_of_seq(arr@)[j] == vs2[j] by {
                                assert(arr@[j]@ == ValView::ByteV(bytes@[j]));
                            }
                            assert(crate::value::views_of_seq(arr@) =~= bytes_as_values(bytes@));
                        }
                        let mut out: Vec<DataValue> = Vec::new();
                        out.push(DataValue::Array(arr));
                        Ok(EvalOutcome::Produced(out))
                    },
                    _ => {
                        let mut got: Vec<DataType> = Vec::new();
                        let mut i: usize = 0;
                        while i < inputs.len()
                            invariant
                                i <= inputs@.len(),
                            decreases inputs@.len() - i,
                        {
                            got.push(inputs[i].get_type());
                            i = i + 1;
                        }
                        let mut expected: Vec<DataType> = Vec::new();
                        expected.push(DataType::Handle);
                        expected.push(DataType::Integer);
                        Err(EvalError::IncorrectTyping { got, expected })
                    },
                }
            },
            AtomicIo::Write => {
                if inputs.len() < 2 {
                    return Err(EvalError::IncorrectInputCount);
                }
                match (&inputs[0], &inputs[1]) {
                    (DataValue::Handle(h), DataValue::String(s)) => {
                        let bytes = string_to_bytes(s.as_str());
                        match self.write_bytes(scope, *h, &bytes) {
                            Ok(_) => {
                                let mut out: Vec<DataValue> = Vec::new();
                                out.push(DataValue::Null);
                                Ok(EvalOutcome::Produced(out))
                            },
                            Err(e) => Err(e),
                        }
                    },
                    _ => {
                        let mut got: Vec<DataType> = Vec::new();
                        let mut i: usize = 0;
                        while i < inputs.len()
                            invariant
                                i <= inputs@.len(),
                            decreases inputs@.len() - i,
                        {
                            got.push(inputs[i].get_type());
                            i = i + 1;
                        }
                        let mut expected: Vec<DataType> = Vec::new();
                        expected.push(DataType::Handle);
                        expected.push(DataType::String);
                        Err(EvalError::IncorrectTyping { got, expected })
                    },
                }
            },
            AtomicIo::ConsoleInput => {
                let mut pattern: Vec<u8> = Vec::new();
                pattern.push(10u8);
                let bytes = self.console.read_until(&pattern);
                match bytes_to_string(bytes) {
                    Some(s) => {
                        let mut out: Vec<DataValue> = Vec::new();
                        out.push(DataValue::String(s));
                        Ok(EvalOutcome::Produced(out))
                    },
                    None => Err(EvalError::InvalidUtf8),
                }
            },
        }
    }

    /// The agent operations: create builds and registers a fresh agent
    /// (memoized on the node), send appends the user message and any
    /// vendor reply, and receive reads the last reply's content.
    pub fn eval_agent(
        &mut self,
        action: AgentAction,
        scope: usize,
        node: usize,
        inputs: Vec<DataValue>,
    ) -> (r: Result<EvalOutcome, EvalError>)
        requires
            engine_wf(*old(self)),
            scope < old(self).scopes@.len(),
            node < old(self).scopes@[scope as int].nodes@.len(),
        ensures
            step_frame(*old(self), *final(self)),
            (action matches AgentAction::Create(kind) && (match old(self).scopes@[
                scope as int].nodes@[node as int].stored {
                Some(x) => *final(self) == *old(self) && (r matches Ok(o) && o
                    matches EvalOutcome::Produced(vs) && vs@.len() == 1 && vs@[0]@ == x@),
                None => {
                    if inputs@.len() < 1 {
                        r matches Err(e) && e matches EvalError::IncorrectInputCount
                    } else {
                        match inputs@[0]@ {
                            ValView::StringV(model) => {
                                if kind is OpenRouter {
                                    r matches Err(e) && e matches EvalError::AgentErr(_)
                                } else {
                                    r matches Ok(o) && o matches EvalOutcome::Produced(vs)
                                        && vs@.len() == 1 && (vs@[0]@
                                        matches ValView::AgentV(k2, aid) && k2 == kind && {
                                        let reg = final(self).scopes@[scope as int].agents@;
                                        &&& reg.len() == old(self).scopes@[
                                            scope as int].agents@.len() + 1
                                        &&& reg.last().0 == aid
                                        &&& reg.last().1.kind == kind
                                        &&& reg.last().1.model@ == model
                                        &&& reg.last().1.messages@.len() == 0
                                    })
                                }
                            },
                            _ => r matches Err(e) && e matches EvalError::IncorrectTyping {
                                got,
                                expected,
                            },
                        }
                    }
                },
            })) || !(action is Create),
            (action is Send && (if inputs@.len() < 2 {
                r matches Err(e) && e matches EvalError::IncorrectInputCount
            } else {
                match (inputs@[0]@, inputs@[1]@) {
                    (ValView::AgentV(_, aid), ValView::StringV(msg)) => {
                        match crate::registries::agent_chain_pos(
                            old(self).scopes@,
                            scope as int,
                            aid,
                        ) {
                            Some(sp) => {
                                let msgs = old(self).scopes@[sp.0].agents@[sp.1].1.messages@;
                                let new_msgs = final(self).scopes@[sp.0].agents@[
                                    sp.1].1.messages@;
                                &&& (r matches Ok(o) && o matches EvalOutcome::Produced(vs)
                                    && vs@.len() == 1 && vs@[0]@ == ValView::NullV)
                                &&& new_msgs.len() >= msgs.len() + 1
                                &&& new_msgs[msgs.len() as int].role
                                    == crate::agent::ChatRole::User
                                &&& new_msgs[msgs.len() as int].content matches Some(c) && c@
                                    == msg
                            },
                            None => r matches Err(e) && e matches EvalError::AgentNotFound(got)
                                && got == aid,
                        }
                    },
                    _ => r matches Err(e) && e matches EvalError::IncorrectTyping {
                        got,
                        expected,
                    },
                }
            })) || !(action is Send),
            (action is Recieve && (if inputs@.len() < 1 {
                r matches Err(e) && e matches EvalError::IncorrectInputCount
            } else {
                match inputs@[0]@ {
                    ValView::AgentV(_, aid) => {
                        match crate::registries::agent_chain_pos(
                            old(self).scopes@,
                            scope as int,
                            aid,
                        ) {
                            Some(sp) => {
                                let msgs = old(self).scopes@[sp.0].agents@[sp.1].1.messages@;
                                r matches Ok(o) && o matches EvalOutcome::Produced(vs)
                                    && vs@.len() == 1 && (if msgs.len() == 0 || msgs.last().role
                                    != crate::agent::ChatRole::Assistant {
                                    vs@[0]@ is NullV
                                } else {
                                    match msgs.last().content {
                                        Some(c) => vs@[0]@ == ValView::StringV(c@),
                                        None => vs@[0]@ is NullV,
                                    }
                                })
                            },
                            None => r matches Err(e) && e matches EvalError::AgentNotFound(got)
                                && got == aid,
                        }
                    },
                    _ => r matches Err(e) && e matches EvalError::IncorrectTyping {
                        got,
                        expected,
                    },
                }
            })) || !(action is Recieve),
    {
        match action {
            AgentAction::Create(kind) => {
                let stored = self.get_stored(scope, node);
                match stored {
                    Some(x) => {
                        let mut out: Vec<DataValue> = Vec::new();
                        out.push(x);
                        Ok(EvalOutcome::Produced(out))
                    },
                    None => {
                        if inputs.len() < 1 {
                            return Err(EvalError::IncorrectInputCount);
                        }
                        let model = match &inputs[0] {
                            DataValue::String(m) => m.clone(),
                            other => {
                                let mut got: Vec<DataType> = Vec::new();
                                got.push(other.get_type());
                                let mut expected: Vec<DataType> = Vec::new();
                                expected.push(DataType::String);
                                return Err(EvalError::IncorrectTyping { got, expected });
                            },
                        };
                        if matches!(kind, AgentType::OpenRouter) {
                            // No vendor backs this kind yet.
                            return Err(
                                EvalError::AgentErr(
                                    AgentErr::OpenAi(String::from_str("unsupported agent vendor")),
                                ),
                            );
                        }
                        let state = kind.create(AgentArgs { model });
                        let id = self.register_agent(scope, state);
                        if scope < self.scopes.len() && node < self.scopes[scope].nodes.len() {
                            let _ = self.set_stored(scope, node, DataValue::Agent(kind, id));
                        }
                        let mut out: Vec<DataValue> = Vec::new();
                        out.push(DataValue::Agent(kind, id));
                        Ok(EvalOutcome::Produced(out))
                    },
                }
            },
            AgentAction::Send => {
                if inputs.len() < 2 {
                    return Err(EvalError::IncorrectInputCount);
                }
                match (&inputs[0], &inputs[1]) {
                    (DataValue::Agent(_, id), DataValue::String(message)) => {
                        match self.agent_send(scope, *id, message) {
                            Ok(_) => {
                                let mut out: Vec<DataValue> = Vec::new();
                                out.push(DataValue::Null);
                                Ok(EvalOutcome::Produced(out))
                            },
                            Err(e) => Err(e),
                        }
                    },
                    _ => {
                        let mut got: Vec<DataType> = Vec::new();
                        let mut i: usize = 0;
                        while i < inputs.len()
                            invariant
                                i <= inputs@.len(),
                            decreases inputs@.len() - i,
                        {
                            got.push(inputs[i].get_type());
                            i = i + 1;
                        }
                        let mut expected: Vec<DataType> = Vec::new();
                        expected.push(DataType::String);
                        Err(EvalError::IncorrectTyping { got, expected })
                    },
                }
            },
            AgentAction::Recieve => {
                if inputs.len() < 1 {
                    return Err(EvalError::IncorrectInputCount);
                }
                match &inputs[0] {
                    DataValue::Agent(_, id) => {
                        match self.agent_recieve(scope, *id) {
                            Ok(Some(s)) => {
                                let mut out: Vec<DataValue> = Vec::new();
                                out.push(DataValue::String(s));
                                Ok(EvalOutcome::Produced(out))
                            },
                            Ok(None) => {
                                let mut out: Vec<DataValue> = Vec::new();
                                out.push(DataValue::Null);
                                Ok(EvalOutcome::Produced(out))
                            },
                            Err(e) => Err(e),
                        }
                    },
                    other => {
                        let mut got: Vec<DataType> = Vec::new();
                        got.push(other.get_type());
                        // The vendor tag in the expected list is nominal.
                        let mut expected: Vec<DataType> = Vec::new();
                        expected.push(DataType::Agent(AgentType::OpenAi));
                        Err(EvalError::IncorrectTyping { got, expected })
                    },
                }
            },
        }
    }

    /// The bytes scripted for a connectable host and port, exactly as
    /// the socket table's first binding gives them.
    #[verifier::loop_isolation(false)]
    fn find_socket(&self, key: &String) -> (r: Option<Vec<u8>>)
        ensures
            (match crate::evaluator::name_lookup(self.sockets@, key@) {
                Some(b) => r matches Some(out) && out@ == b@,
                None => r is None,
            }),
    {
        let n = self.sockets.len();
        let mut i: usize = 0;
        while i < n
            invariant
                n == self.sockets@.len(),
                i <= n,
                forall|j: int| 0 <= j < i ==> (#[trigger] self.sockets@[j]).0@ != key@,
            decreases n - i,
        {
            if self.sockets[i].0 == *key {
                proof {
                    crate::registries::lemma_name_lookup_prefix(self.sockets@, key@, i as int);
                }
                let mut out: Vec<u8> = Vec::new();
                let mut k: usize = 0;
                while k < self.sockets[i].1.len()
                    invariant
                        i < self.sockets@.len(),
                        k <= self.sockets@[i as int].1@.len(),
                        out@ == self.sockets@[i as int].1@.take(k as int),
                    decreases self.sockets@[i as int].1@.len() - k,
                {
                    out.push(self.sockets[i].1[k]);
                    proof {
                        assert(out@ =~= self.sockets@[i as int].1@.take(k + 1));
                    }
                    k = k + 1;
                }
                proof {
                    assert(self.sockets@[i as int].1@.take(self.sockets@[i as int].1@.len() as int)
                        =~= self.sockets@[i as int].1@);
                }
                return Some(out);
            }
            i = i + 1;
        }
        proof {
            crate::registries::lemma_name_lookup_absent(self.sockets@, key@);
        }
        Option::None
    }
}

/// The display form of a value as an owned string.
pub fn display_value(v: &DataValue) -> (r: String)
    ensures
        r@ == crate::display::display_of(v@),
{
    crate::display::display_string(v)
}

/// The `host:port` key of a socket, from the display forms of the two
/// inputs.
pub fn join_host_port(host: &DataValue, port: &DataValue) -> (r: String)
{
    let mut out: Vec<char> = Vec::new();
    crate::display::push_display(host, &mut out);
    out.push(':');
    crate::display::push_display(port, &mut out);
    crate::strutil::chars_to_string(&out)
}

/// The shapes of a byte sequence read into byte values.
pub open spec fn bytes_as_values(b: Seq<u8>) -> Seq<ValView> {
    Seq::new(b.len(), |i: int| ValView::ByteV(b[i]))
}

/// A line with its end-of-line bytes removed, as `strip_eol` states.
pub open spec fn strip_eol(b: Seq<u8>) -> Seq<u8> {
    let without_nl = if b.len() > 0 && b.last() == 10u8 {
        b.drop_last()
    } else {
        b
    };
    if without_nl.len() > 0 && without_nl.last() == 13u8 {
        without_nl.drop_last()
    } else {
        without_nl
    }
}

/// A line with its trailing newline, and then any trailing carriage
/// return, removed.
pub fn trim_line_end(bytes: Vec<u8>) -> (r: Vec<u8>)
    ensures
        r@ == strip_eol(bytes@),
{
    let mut b = bytes;
    if b.len() > 0 {
        let last = b[b.len() - 1];
        if last == 10u8 {
            let _ = b.pop();
        }
    }
    if b.len() > 0 {
        let last = b[b.len() - 1];
        if last == 13u8 {
            let _ = b.pop();
        }
    }
    b
}

} // verus!
