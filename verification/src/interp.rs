//! The pull-driven interpreter. Demand starts at a sink: listening on a
//! node's port registers a single-shot mailbox and triggers one
//! processing cycle, which gathers the node's inputs — strong edges by
//! listening upstream in turn, weak edges by sampling their cached
//! listener — evaluates the operation, and broadcasts the outputs to
//! every pending listener. A close anywhere cascades: a closed strong
//! source closes the downstream node, which delivers `None` to its own
//! listeners.
//!
//! Every recursive step spends one unit of fuel; a node that runs out is
//! closed, exactly as the close cascade closes it.
use vstd::prelude::*;
use crate::errors::EvalError;
use crate::evaluator::{Engine, Mail, NodeState, engine_wf, step_frame};
use crate::ids::{NodeId, fresh_id};
use crate::nodes::NodeType;
use crate::strutil::chars_to_string;
use crate::value::{DataValue, ValView};

verus! {

broadcast use crate::evaluator::lemma_step_frame_trans;

/// What one evaluation produced: outputs to broadcast, or a request to
/// run another cycle at once (a loop tick).
#[derive(Debug)]
pub enum EvalOutcome {
    Produced(Vec<DataValue>),
    Retrigger,
}

/// Appending a binding leaves earlier first bindings in place and makes
/// an absent key resolve to the new one.
pub proof fn lemma_id_lookup_push<V>(m: Seq<(u128, V)>, k: u128, e: (u128, V))
    ensures
        e.0 == k && crate::evaluator::id_lookup(m, k) is None ==> crate::evaluator::id_lookup(
            m.push(e),
            k,
        ) == Some(e.1),
        crate::evaluator::id_lookup(m, k) is Some ==> crate::evaluator::id_lookup(m.push(e), k)
            == crate::evaluator::id_lookup(m, k),
    decreases m.len(),
{
    if m.len() == 0 {
        assert(m.push(e)[0] == e);
        let emp: Seq<(u128, V)> = Seq::empty();
        assert(crate::evaluator::id_lookup(emp, k) is None);
        assert(m.push(e).drop_first() =~= emp);
    } else {
        assert(m.push(e)[0] == m[0]);
        assert(m.push(e).drop_first() =~= m.drop_first().push(e));
        lemma_id_lookup_push(m.drop_first(), k, e);
    }
}

/// A scan that stops at the first matching key returns what the
/// identifier lookup returns.
pub proof fn lemma_id_lookup_prefix<V>(m: Seq<(u128, V)>, k: u128, i: int)
    requires
        0 <= i < m.len(),
        m[i].0 == k,
        forall|j: int| 0 <= j < i ==> (#[trigger] m[j]).0 != k,
    ensures
        crate::evaluator::id_lookup(m, k) == Some(m[i].1),
    decreases i,
{
    if i > 0 {
        assert forall|j: int| 0 <= j < i - 1 implies (#[trigger] m.drop_first()[j]).0 != k by {
            assert(m.drop_first()[j] == m[j + 1]);
        }
        assert(m.drop_first()[i - 1] == m[i]);
        lemma_id_lookup_prefix(m.drop_first(), k, i - 1);
    }
}

/// A fully-scanned list binds an identifier nowhere.
pub proof fn lemma_id_lookup_absent<V>(m: Seq<(u128, V)>, k: u128)
    requires
        forall|j: int| 0 <= j < m.len() ==> (#[trigger] m[j]).0 != k,
    ensures
        crate::evaluator::id_lookup(m, k) is None,
    decreases m.len(),
{
    if m.len() > 0 {
        assert forall|j: int| 0 <= j < m.drop_first().len() implies (#[trigger] m.drop_first()[
            j]).0 != k by {
            assert(m.drop_first()[j] == m[j + 1]);
        }
        lemma_id_lookup_absent(m.drop_first(), k);
    }
}

/// The operation of a node: the node type of the instance its scope's
/// template holds for it, when the instance index resolves.
pub open spec fn node_op_view(e: Engine, scope: int, node: int) -> Option<
    crate::nodes::NodeTypeV,
> {
    if e.scopes@[scope].nodes@[node].inst < e.templates@[e.scopes@[scope].template
        as int].instances@.len() {
        Some(
            e.templates@[e.scopes@[scope].template as int].instances@[e.scopes@[scope].nodes@[
                node].inst as int].1.node_type@,
        )
    } else {
        None
    }
}

/// The cached weak listener of one input edge, if the edge has a cache
/// slot and it is occupied.
pub open spec fn weak_cache_of(e: Engine, scope: int, node: int, edge: int) -> Option<usize> {
    if edge < e.scopes@[scope].nodes@[node].weak@.len() {
        e.scopes@[scope].nodes@[node].weak@[edge]
    } else {
        None
    }
}

impl Engine {
    /// Loads a sub-graph from a path: the file's text is parsed —
    /// rejecting a document whose edges do not all resolve — and
    /// registered as a template, and a scope is built under a fresh
    /// scope identifier hashed from the parent's. It fails exactly when
    /// the file is absent (with the path) or its text is refused (with
    /// the path and the reason); on success every node of the built
    /// scope is the scope-qualified hash of a template instance, and
    /// every edge source is the identifier of a node of the same scope.
    pub fn new_evaluator(&mut self, path: &String, parent: Option<usize>) -> (r: Result<
        usize,
        EvalError,
    >)
        requires
            engine_wf(*old(self)),
            (parent matches Some(p) ==> p < old(self).scopes@.len()),
        ensures
            step_frame(*old(self), *final(self)),
            r matches Ok(s) ==> (s as int) < final(self).scopes@.len(),
            crate::evaluator::name_lookup(old(self).files@, path@) is None ==> (r
                matches Err(e) && e matches EvalError::IoError(p) && p@ == path@
                && *final(self) == *old(self)),
            r is Err ==> (r matches Err(e) && (e matches EvalError::IoError(_) || e
                matches EvalError::InvalidComplexNode(_, _))),
            (match r {
                Err(EvalError::InvalidComplexNode(p, _)) => p@ == path@,
                _ => true,
            }),
            r matches Ok(_) ==> crate::evaluator::name_lookup(old(self).files@, path@)
                is Some,
            (r matches Ok(s) && {
                let built = final(self).scopes@[s as int];
                &&& built.template < final(self).templates@.len()
                &&& crate::builder::complex_closed(
                    final(self).templates@[built.template as int],
                )
                &&& crate::builder::nodes_match_template(
                    built.nodes@,
                    final(self).templates@[built.template as int],
                    built.scope_id,
                )
                &&& (forall|k: int, e: int| 0 <= k < built.nodes@.len() && 0 <= e < built.nodes@[
                    k].inputs@.len() ==> (exists|k2: int| 0 <= k2 < built.nodes@.len()
                    && (#[trigger] built.nodes@[k2]).id == (#[trigger] built.nodes@[
                    k].inputs@[e]).src))
                &&& built.parent == parent
                &&& !built.closed
            }) || r is Err,
    {
        let text = match self.find_file(path) {
            Some(t) => t,
            None => {
                return Err(EvalError::IoError(path.clone()));
            },
        };
        let c = match crate::loader::parse_complex(text.as_str()) {
            Ok(c) => c,
            Err(why) => {
                return Err(EvalError::InvalidComplexNode(path.clone(), why));
            },
        };
        let parent_id: u128 = match parent {
            Some(p) => {
                if p < self.scopes.len() {
                    self.scopes[p].scope_id
                } else {
                    0
                }
            },
            None => 0,
        };
        let scope_id = crate::ids::scoped_id_raw(parent_id, fresh_id());
        let dir = dirname(path);
        let tpl = self.add_template(c);
        let s = self.build_scope(tpl, parent, scope_id, dir, false);
        proof {
            crate::builder::lemma_edges_resolve(
                final(self).scopes@[s as int].nodes@,
                final(self).templates@[tpl as int],
                scope_id,
            );
        }
        Ok(s)
    }

    /// The text of a loadable file, if the path is known.
    #[verifier::loop_isolation(false)]
    pub fn find_file(&self, path: &String) -> (r: Option<String>)
        ensures
            (match crate::evaluator::name_lookup(self.files@, path@) {
                Some(t) => r matches Some(s) && s@ == t@,
                None => r is None,
            }),
    {
        let n = self.files.len();
        let mut i: usize = 0;
        while i < n
            invariant
                n == self.files@.len(),
                i <= n,
                forall|j: int| 0 <= j < i ==> (#[trigger] self.files@[j]).0@ != path@,
            decreases n - i,
        {
            if self.files[i].0 == *path {
                proof {
                    crate::registries::lemma_name_lookup_prefix(self.files@, path@, i as int);
                }
                return Some(self.files[i].1.clone());
            }
            i = i + 1;
        }
        proof {
            crate::registries::lemma_name_lookup_absent(self.files@, path@);
        }
        Option::None
    }

    /// Registers a single-shot listener on a source node's port and,
    /// when the node was waiting, runs one processing cycle, then takes
    /// the one delivered message: `Some(value)` from a drain, `None`
    /// from a close. Success means the fresh mailbox was delivered
    /// exactly once and this caller took its message; the channel
    /// failure means nothing was ever delivered to it.
    pub fn listen(&mut self, scope: usize, node: usize, port: usize, fuel: u64) -> (r: Result<
        Option<DataValue>,
        EvalError,
    >)
        requires
            engine_wf(*old(self)),
            scope < old(self).scopes@.len(),
            node < old(self).scopes@[scope as int].nodes@.len(),
        ensures
            step_frame(*old(self), *final(self)),
            port >= old(self).scopes@[scope as int].nodes@[node as int].outputs@.len() ==> (r
                matches Err(e) && e matches EvalError::PortOutOfBounds(p) && p == port
                && final(self).scopes@ == old(self).scopes@ && final(self).mails@ == old(
                self,
            ).mails@),
            port < old(self).scopes@[scope as int].nodes@[node as int].outputs@.len() ==> {
                &&& final(self).mails@.len() > old(self).mails@.len()
                &&& (r matches Ok(_) ==> final(self).mails@[old(self).mails@.len() as int]
                    is Taken)
                &&& (r is Err ==> (r matches Err(e) && e matches EvalError::ChannelRecvErr)
                    && !(final(self).mails@[old(self).mails@.len() as int] is Full))
            },
            port < old(self).scopes@[scope as int].nodes@[node as int].outputs@.len() && fuel
                > 0 && old(self).scopes@[scope as int].nodes@[node as int].state
                == NodeState::Closed ==> (r matches Ok(got) && got is None),
        decreases fuel, 9int,
    {
        let m = match self.register_listener(scope, node, port) {
            Ok(m) => m,
            Err(e) => {
                return Err(e);
            },
        };
        let was_waiting = self.trigger_processing(scope, node);
        let closed = self.node_state(scope, node) == NodeState::Closed;
        if (was_waiting || closed) && fuel > 0 {
            // A failing cycle broadcast-closes the node, which delivered
            // `None` to this listener — and a node already closed still
            // answers with `None`; the error itself is the node's to
            // report, as the supervisor does, not the listener's.
            let ghost before = *self;
            let _ = self.run_cycle(scope, node, fuel - 1);
            proof {
                if old(self).scopes@[scope as int].nodes@[node as int].state
                    == NodeState::Closed {
                    assert(before.scopes@[scope as int].nodes@[node as int].outputs@[
                        port as int].pending@.last() == m);
                }
            }
        }
        match self.read_mail(m) {
            Some(msg) => Ok(msg),
            None => Err(EvalError::ChannelRecvErr),
        }
    }

    /// Registers a listener on every output port, runs one cycle, and
    /// hands back one entry per port: the delivered value, or the absent
    /// value where the port delivered a close or nothing at all. It
    /// never fails: every port of the node gets its listener.
    #[verifier::loop_isolation(false)]
    pub fn listen_all(&mut self, scope: usize, node: usize, fuel: u64) -> (r: Result<
        Vec<DataValue>,
        EvalError,
    >)
        requires
            engine_wf(*old(self)),
            scope < old(self).scopes@.len(),
            node < old(self).scopes@[scope as int].nodes@.len(),
        ensures
            step_frame(*old(self), *final(self)),
            r matches Ok(vs) && vs@.len() == old(self).scopes@[scope as int].nodes@[
                node as int].outputs@.len(),
        decreases fuel, 9int,
    {
        let nports = self.scopes[scope].nodes[node].outputs.len();
        let mut mails: Vec<usize> = Vec::new();
        let mut p: usize = 0;
        while p < nports
            invariant
                engine_wf(*self),
                step_frame(*old(self), *self),
                scope < self.scopes@.len(),
                node < self.scopes@[scope as int].nodes@.len(),
                nports == self.scopes@[scope as int].nodes@[node as int].outputs@.len(),
                p <= nports,
                mails@.len() == p,
                forall|j: int| 0 <= j < mails@.len() ==> (#[trigger] mails@[j])
                    < self.mails@.len(),
            decreases nports - p,
        {
            match self.register_listener(scope, node, p) {
                Ok(m) => {
                    mails.push(m);
                },
                Err(_) => {
                    // The port is within the node's arity, so registration
                    // cannot refuse it.
                    proof {
                        assert(false);
                    }
                },
            }
            p = p + 1;
        }
        let was_waiting = self.trigger_processing(scope, node);
        if was_waiting && fuel > 0 {
            let _ = self.run_cycle(scope, node, fuel - 1);
        }
        let mut out: Vec<DataValue> = Vec::new();
        let mut i: usize = 0;
        while i < mails.len()
            invariant
                engine_wf(*self),
                step_frame(*old(self), *self),
                i <= mails@.len(),
                out@.len() == i,
                forall|j: int| 0 <= j < mails@.len() ==> (#[trigger] mails@[j])
                    < self.mails@.len(),
            decreases mails@.len() - i,
        {
            match self.read_mail(mails[i]) {
                Some(Some(v)) => {
                    out.push(v);
                },
                Some(None) => {
                    out.push(DataValue::Null);
                },
                None => {
                    out.push(DataValue::Null);
                },
            }
            i = i + 1;
        }
        Ok(out)
    }

    /// One processing cycle of a node: gather inputs over the edges,
    /// evaluate the operation, broadcast the outputs — or, when a strong
    /// input is closed or failed, broadcast-close this node too, which
    /// is the close cascade. A node already closed does nothing; a cycle
    /// without fuel closes; every error leaves the node closed, its
    /// pending listeners having received `None`.
    #[verifier::loop_isolation(false)]
    /// One processing cycle of a node: gather inputs over the edges,
    /// evaluate the operation, broadcast the outputs — or, when a strong
    /// input is closed or failed, broadcast-close this node too, which
    /// is the close cascade. A closed node does no work but still
    /// answers its listeners with `None`; a cycle without fuel closes;
    /// every error leaves the node closed. Every listener pending at
    /// entry is delivered: `Some` on its port by a producing cycle
    /// (ports the production covers), `None` by a close.
    #[verifier::loop_isolation(false)]
    pub fn run_cycle(&mut self, scope: usize, node: usize, fuel: u64) -> (r: Result<
        Vec<DataValue>,
        EvalError,
    >)
        requires
            engine_wf(*old(self)),
            scope < old(self).scopes@.len(),
            node < old(self).scopes@[scope as int].nodes@.len(),
        ensures
            step_frame(*old(self), *final(self)),
            old(self).scopes@[scope as int].nodes@[node as int].state == NodeState::Closed
                ==> final(self).scopes@[scope as int].nodes@[node as int].state
                == NodeState::Closed && (r matches Ok(outs) && outs@.len() == 0) && (forall|
                p: int,
                j: int,
            |
                #![trigger old(self).scopes@[scope as int].nodes@[node as int].outputs@[p].pending@[j]]
                0 <= p < old(self).scopes@[scope as int].nodes@[node as int].outputs@.len()
                    && 0 <= j < old(self).scopes@[scope as int].nodes@[node as int].outputs@[
                    p].pending@.len() && old(self).mails@[old(self).scopes@[
                    scope as int].nodes@[node as int].outputs@[p].pending@[j] as int] is Empty
                    ==> final(self).mails@[old(self).scopes@[scope as int].nodes@[
                    node as int].outputs@[p].pending@[j] as int] matches Mail::Full(None)),
            fuel == 0 ==> final(self).scopes@[scope as int].nodes@[node as int].state
                == NodeState::Closed && (r matches Ok(outs) && outs@.len() == 0),
            r is Err ==> final(self).scopes@[scope as int].nodes@[node as int].state
                == NodeState::Closed,
            (r matches Ok(outs) && outs@.len() > 0) ==> final(self).scopes@[
                scope as int].nodes@[node as int].state == NodeState::Waiting,
            (r is Err || (r matches Ok(outs) && outs@.len() == 0 && final(self).scopes@[
                scope as int].nodes@[node as int].state == NodeState::Closed)) ==> (forall|
                p: int,
                j: int,
            |
                #![trigger old(self).scopes@[scope as int].nodes@[node as int].outputs@[p].pending@[j]]
                0 <= p < old(self).scopes@[scope as int].nodes@[node as int].outputs@.len()
                    && 0 <= j < old(self).scopes@[scope as int].nodes@[node as int].outputs@[
                    p].pending@.len() && old(self).scopes@[scope as int].nodes@[
                    node as int].outputs@[p].pending@[j] < old(self).mails@.len()
                    ==> !(final(self).mails@[old(self).scopes@[scope as int].nodes@[
                    node as int].outputs@[p].pending@[j] as int] is Empty)),
            (match r {
                Ok(outs) => (node_op_view(*old(self), scope as int, node as int) matches Some(
                    op,
                ) && (op matches crate::nodes::NodeTypeV::AtomicV(a) && (a
                    matches crate::nodes::AtomicTypeV::ValueV(v) && (outs@.len() == 0 || (
                    outs@.len() == 1 && outs@[0]@ == v)))) || !(node_op_view(
                    *old(self),
                    scope as int,
                    node as int,
                ) matches Some(crate::nodes::NodeTypeV::AtomicV(a2)) && a2 is ValueV)),
                Err(_) => true,
            }),
            (match r {
                Ok(outs) => outs@.len() == 0 || (forall|p: int, j: int|
                    #![trigger old(self).scopes@[scope as int].nodes@[node as int].outputs@[p].pending@[j]]
                    0 <= p < old(self).scopes@[scope as int].nodes@[node as int].outputs@.len()
                        && p < outs@.len() && 0 <= j < old(self).scopes@[scope as int].nodes@[
                        node as int].outputs@[p].pending@.len() && old(self).scopes@[
                        scope as int].nodes@[node as int].outputs@[p].pending@[j]
                        < old(self).mails@.len()
                        ==> !(final(self).mails@[old(self).scopes@[scope as int].nodes@[
                        node as int].outputs@[p].pending@[j] as int] is Empty)),
                Err(_) => true,
            }),
        decreases fuel, 9int,
    {
        let ghost nports0 = old(self).scopes@[scope as int].nodes@[node as int].outputs@.len();
        if self.node_state(scope, node) == NodeState::Closed {
            // A closed node still answers anyone listening with `None`.
            self.broadcast_closed(scope, node);
            return Ok(Vec::new());
        }
        if fuel == 0 {
            self.broadcast_closed(scope, node);
            return Ok(Vec::new());
        }
        let mut fuel_left: u64 = fuel;
        loop
            invariant
                engine_wf(*self),
                step_frame(*old(self), *self),
                scope < self.scopes@.len(),
                node < self.scopes@[scope as int].nodes@.len(),
                fuel_left >= 1,
                fuel_left <= fuel,
            decreases fuel_left,
        {
            let state = self.node_state(scope, node);
            if state == NodeState::Closed {
                let ghost before = *self;
                self.broadcast_closed(scope, node);
                proof {
                    crate::evaluator::lemma_entry_listeners_delivered(
                        *old(self),
                        before,
                        *self,
                        scope as int,
                        node as int,
                        nports0 as int,
                    );
                }
                return Ok(Vec::new());
            }
            // Gather inputs in declared order.
            let nedges = self.scopes[scope].nodes[node].inputs.len();
            let mut inputs: Vec<DataValue> = Vec::new();
            let mut e: usize = 0;
            while e < nedges
                invariant
                    engine_wf(*self),
                    step_frame(*old(self), *self),
                    scope < self.scopes@.len(),
                    node < self.scopes@[scope as int].nodes@.len(),
                    e <= nedges,
                decreases nedges - e,
            {
                if e >= self.scopes[scope].nodes[node].inputs.len() {
                    break;
                }
                let edge = self.scopes[scope].nodes[node].inputs[e];
                match self.find_node_scoped(scope, edge.src) {
                    None => {},
                    Some(src) => {
                        if edge.strong {
                            if self.node_state(scope, src) == NodeState::Closed {
                                let ghost before = *self;
                                self.broadcast_closed(scope, node);
                                proof {
                                    crate::evaluator::lemma_entry_listeners_delivered(
                                        *old(self),
                                        before,
                                        *self,
                                        scope as int,
                                        node as int,
                                        nports0 as int,
                                    );
                                }
                                return Ok(Vec::new());
                            }
                            match self.listen(scope, src, edge.port, fuel_left - 1) {
                                Ok(Some(v)) => {
                                    inputs.push(v);
                                },
                                Ok(None) => {
                                    let ghost before = *self;
                                    self.broadcast_closed(scope, node);
                                    proof {
                                        crate::evaluator::lemma_entry_listeners_delivered(
                                            *old(self),
                                            before,
                                            *self,
                                            scope as int,
                                            node as int,
                                            nports0 as int,
                                        );
                                    }
                                    return Ok(Vec::new());
                                },
                                Err(err) => {
                                    let ghost before = *self;
                                    self.broadcast_closed(scope, node);
                                    proof {
                                        crate::evaluator::lemma_entry_listeners_delivered(
                                            *old(self),
                                            before,
                                            *self,
                                            scope as int,
                                            node as int,
                                            nports0 as int,
                                        );
                                    }
                                    return Err(err);
                                },
                            }
                        } else {
                            let got = self.sample_weak(scope, node, e, src, edge.port);
                            match got {
                                Ok(v) => {
                                    inputs.push(v);
                                },
                                Err(err) => {
                                    let ghost before = *self;
                                    self.broadcast_closed(scope, node);
                                    proof {
                                        crate::evaluator::lemma_entry_listeners_delivered(
                                            *old(self),
                                            before,
                                            *self,
                                            scope as int,
                                            node as int,
                                            nports0 as int,
                                        );
                                    }
                                    return Err(err);
                                },
                            }
                        }
                    },
                }
                e = e + 1;
            }
            // Let a nested re-trigger be received while evaluating.
            self.set_waiting(scope, node);
            let res = self.evaluate(scope, node, inputs, fuel_left - 1);
            match res {
                Ok(EvalOutcome::Produced(outputs)) => {
                    let ghost before = *self;
                    self.broadcast_value(scope, node, &outputs);
                    // Outputs drained; the serial cycle ends back at waiting.
                    self.set_waiting(scope, node);
                    proof {
                        crate::evaluator::lemma_entry_listeners_delivered(
                            *old(self),
                            before,
                            *self,
                            scope as int,
                            node as int,
                            outputs@.len() as int,
                        );
                    }
                    return Ok(outputs);
                },
                Ok(EvalOutcome::Retrigger) => {
                    if fuel_left <= 1 {
                        let ghost before = *self;
                        self.broadcast_closed(scope, node);
                        proof {
                            crate::evaluator::lemma_entry_listeners_delivered(
                                *old(self),
                                before,
                                *self,
                                scope as int,
                                node as int,
                                nports0 as int,
                            );
                        }
                        return Ok(Vec::new());
                    }
                    fuel_left = fuel_left - 1;
                },
                Err(err) => {
                    let ghost before = *self;
                    self.broadcast_closed(scope, node);
                    proof {
                        crate::evaluator::lemma_entry_listeners_delivered(
                            *old(self),
                            before,
                            *self,
                            scope as int,
                            node as int,
                            nports0 as int,
                        );
                    }
                    return Err(err);
                },
            }
        }
    }

    /// Samples one weak edge: the first time it registers a listener on
    /// the source without triggering it; afterwards a ready value is
    /// consumed and a fresh listener takes its place, while a pending
    /// one leaves the input absent.
    pub fn sample_weak(
        &mut self,
        scope: usize,
        node: usize,
        edge: usize,
        src: usize,
        port: usize,
    ) -> (r: Result<DataValue, EvalError>)
        requires
            engine_wf(*old(self)),
            scope < old(self).scopes@.len(),
            node < old(self).scopes@[scope as int].nodes@.len(),
            src < old(self).scopes@[scope as int].nodes@.len(),
        ensures
            step_frame(*old(self), *final(self)),
    {
        let cached: Option<usize> = if edge < self.scopes[scope].nodes[node].weak.len() {
            self.scopes[scope].nodes[node].weak[edge]
        } else {
            Option::None
        };
        match cached {
            None => {
                let m = match self.register_listener(scope, src, port) {
                    Ok(m) => m,
                    Err(e) => {
                        return Err(e);
                    },
                };
                self.store_weak(scope, node, edge, m);
                Ok(DataValue::Null)
            },
            Some(m) => {
                if m >= self.mails.len() {
                    return Ok(DataValue::Null);
                }
                let ready = match &self.mails[m] {
                    Mail::Full(_) => true,
                    _ => false,
                };
                if !ready {
                    return Ok(DataValue::Null);
                }
                let got = self.read_mail(m);
                let fresh = match self.register_listener(scope, src, port) {
                    Ok(m2) => Some(m2),
                    Err(_) => Option::None,
                };
                match fresh {
                    Some(m2) => {
                        self.store_weak(scope, node, edge, m2);
                    },
                    None => {},
                }
                match got {
                    Some(Some(v)) => Ok(v),
                    _ => Ok(DataValue::Null),
                }
            },
        }
    }

    /// Records a weak listener in the node's per-edge cache.
    pub fn store_weak(&mut self, scope: usize, node: usize, edge: usize, m: usize)
        requires
            engine_wf(*old(self)),
            scope < old(self).scopes@.len(),
            node < old(self).scopes@[scope as int].nodes@.len(),
            m < old(self).mails@.len(),
        ensures
            engine_wf(*final(self)),
            crate::evaluator::step_frame(*old(self), *final(self)),
            final(self).mails@ == old(self).mails@,
            final(self).templates@ == old(self).templates@,
            final(self).scopes@.len() == old(self).scopes@.len(),
            crate::evaluator::scopes_preserve_nodes(old(self).scopes@, final(self).scopes@),
    {
        let ghost pre = self.scopes@;
        if edge < self.scopes[scope].nodes[node].weak.len() {
            self.scopes[scope].nodes[node].weak[edge] = Some(m);
            proof {
                let post = self.scopes@;
                assert(post =~= pre.update(scope as int, post[scope as int]));
                assert(post[scope as int].nodes@ =~= pre[scope as int].nodes@.update(
                    node as int,
                    post[scope as int].nodes@[node as int],
                ));
                assert(post[scope as int].nodes@[node as int].weak@ =~= pre[
                    scope as int].nodes@[node as int].weak@.update(edge as int, Some(m)));
            }
        }
    }

    /// Evaluates one node's operation — the instance the node points at
    /// in its scope's template — against its gathered inputs. The pure
    /// operations keep their exact meaning here: a value node yields its
    /// value, a binary operation follows the arithmetic specification, a
    /// cast follows the cast specification, the absence test reports its
    /// input, and a replace substitutes the leftmost regex match.
    pub fn evaluate(&mut self, scope: usize, node: usize, inputs: Vec<DataValue>, fuel: u64) -> (r:
        Result<EvalOutcome, EvalError>)
        requires
            engine_wf(*old(self)),
            scope < old(self).scopes@.len(),
            node < old(self).scopes@[scope as int].nodes@.len(),
        ensures
            step_frame(*old(self), *final(self)),
            old(self).scopes@[scope as int].nodes@[node as int].inst >= old(self).templates@[
                old(self).scopes@[scope as int].template as int].instances@.len() ==> (r
                matches Err(e) && e matches EvalError::NodeNotFound(_)),
            (node_op_view(*old(self), scope as int, node as int)
                matches Some(crate::nodes::NodeTypeV::AtomicV(a)) && {
                ||| (a matches crate::nodes::AtomicTypeV::ValueV(v) && (r matches Ok(o) && o
                    matches EvalOutcome::Produced(vs) && vs@.len() == 1 && vs@[0]@ == v))
                ||| !(a is ValueV)
            }) || !(node_op_view(*old(self), scope as int, node as int)
                matches Some(crate::nodes::NodeTypeV::AtomicV(a2)) && a2 is ValueV),
            (node_op_view(*old(self), scope as int, node as int)
                matches Some(crate::nodes::NodeTypeV::AtomicV(a)) && a
                matches crate::nodes::AtomicTypeV::BinOpV(op) && inputs@.len() == 2 && (match
                crate::dispatch::bin_op_spec(op, inputs@[0]@, inputs@[1]@) {
                Ok(w) => r matches Ok(o) && o matches EvalOutcome::Produced(vs) && vs@.len() == 1
                    && vs@[0]@ == w,
                Err(_) => r matches Err(e) && e matches EvalError::MathError(_),
            })) || !(node_op_view(*old(self), scope as int, node as int)
                matches Some(crate::nodes::NodeTypeV::AtomicV(a2)) && a2 is BinOpV && inputs@.len()
                == 2),
            (node_op_view(*old(self), scope as int, node as int)
                matches Some(crate::nodes::NodeTypeV::AtomicV(a)) && a is IsNoneV && inputs@.len() == 1
                && (r matches Ok(o) && o matches EvalOutcome::Produced(vs) && vs@.len() == 1
                && vs@[0]@ == ValView::BooleanV(inputs@[0]@ is NullV))) || !(node_op_view(
                *old(self),
                scope as int,
                node as int,
            ) matches Some(crate::nodes::NodeTypeV::AtomicV(a2)) && a2 is IsNoneV && inputs@.len()
                == 1),
            (node_op_view(*old(self), scope as int, node as int)
                matches Some(crate::nodes::NodeTypeV::AtomicV(a)) && a
                matches crate::nodes::AtomicTypeV::CastV(t) && inputs@.len() >= 1 && (match
                crate::value::try_cast_spec(inputs@[0]@, t) {
                Ok(w) => r matches Ok(o) && o matches EvalOutcome::Produced(vs) && vs@.len() == 1
                    && vs@[0]@ == w,
                Err(pair) => r matches Err(e) && e matches EvalError::CastError(got) && got
                    == pair,
            })) || !(node_op_view(*old(self), scope as int, node as int)
                matches Some(crate::nodes::NodeTypeV::AtomicV(a2)) && a2 is CastV && inputs@.len()
                >= 1),
            (node_op_view(*old(self), scope as int, node as int)
                matches Some(crate::nodes::NodeTypeV::AtomicV(a)) && a is ReplaceV && inputs@.len()
                == 3 && (inputs@[0]@ matches ValView::StringV(pat) && inputs@[1]@
                matches ValView::StringV(rep) && inputs@[2]@ matches ValView::StringV(text)
                && (if crate::regex_ops::regex_compiles(pat) {
                r matches Ok(o) && o matches EvalOutcome::Produced(vs) && vs@.len() == 1
                    && vs@[0]@ == ValView::StringV(
                    crate::regex_ops::regex_replace_first(pat, text, rep),
                )
            } else {
                r matches Err(e) && e matches EvalError::RegexError(p) && p@ == pat
            }))) || !(node_op_view(*old(self), scope as int, node as int)
                matches Some(crate::nodes::NodeTypeV::AtomicV(a2)) && a2 is ReplaceV && inputs@.len()
                == 3 && inputs@[0]@ is StringV && inputs@[1]@ is StringV && inputs@[2]@
                is StringV),
            (node_op_view(*old(self), scope as int, node as int)
                matches Some(crate::nodes::NodeTypeV::ComplexV(_)) && fuel > 0 && (exists|i: int|
                0 <= i < inputs@.len() && (#[trigger] inputs@[i])@ is NullV) && (r
                matches Err(e) && e matches EvalError::ComplexWeakInput)) || !(node_op_view(
                *old(self),
                scope as int,
                node as int,
            ) matches Some(crate::nodes::NodeTypeV::ComplexV(_)) && fuel > 0 && (exists|i: int|
                0 <= i < inputs@.len() && (#[trigger] inputs@[i])@ is NullV)),
        decreases fuel, 3int,
    {
        let inst = self.scopes[scope].nodes[node].inst;
        let tpl = self.scopes[scope].template;
        if inst >= self.templates[tpl].instances.len() {
            let id = self.scopes[scope].nodes[node].id;
            return Err(EvalError::NodeNotFound(id));
        }
        let op = self.templates[tpl].instances[inst].1.node_type.duplicate();
        match op {
            NodeType::Atomic(atomic_type) => self.eval_atomic(atomic_type, scope, node, inputs, fuel),
            NodeType::Complex(path) => self.eval_complex(path, scope, node, inputs, fuel),
        }
    }

    /// Resolves and runs a sub-graph node: all inputs must be
    /// strong-resolved, the child instance is reused across invocations
    /// of the same node, and templates are shared through the scope
    /// chain's cache.
    #[verifier::loop_isolation(false)]
    pub fn eval_complex(
        &mut self,
        path: String,
        scope: usize,
        node: usize,
        inputs: Vec<DataValue>,
        fuel: u64,
    ) -> (r: Result<EvalOutcome, EvalError>)
        requires
            engine_wf(*old(self)),
            scope < old(self).scopes@.len(),
            node < old(self).scopes@[scope as int].nodes@.len(),
        ensures
            step_frame(*old(self), *final(self)),
            fuel == 0 ==> (r matches Err(e) && e matches EvalError::Closed),
            fuel > 0 && (exists|i: int| 0 <= i < inputs@.len() && (#[trigger] inputs@[i])@
                is NullV) ==> *final(self) == *old(self) && (r matches Err(e) && e
                matches EvalError::ComplexWeakInput),
            r matches Ok(o) ==> o is Produced,
        decreases fuel, 1int,
    {
        if fuel == 0 {
            return Err(EvalError::Closed);
        }
        let mut i: usize = 0;
        while i < inputs.len()
            invariant
                *self == *old(self),
                i <= inputs@.len(),
                forall|j: int| 0 <= j < i ==> !((#[trigger] inputs@[j])@ is NullV),
            decreases inputs@.len() - i,
        {
            if inputs[i].is_none() {
                return Err(EvalError::ComplexWeakInput);
            }
            i = i + 1;
        }
        let my_id = self.scopes[scope].nodes[node].id;
        let running = self.find_running(scope, my_id);
        match running {
            Some(child) => {
                if child >= self.scopes.len() {
                    return Err(EvalError::ComplexNotFound(path));
                }
                self.set_inputs(child, inputs);
                match self.get_outputs(child, fuel - 1) {
                    Ok(outs) => Ok(EvalOutcome::Produced(outs)),
                    Err(e) => Err(e),
                }
            },
            None => {
                let rel = join_path(&self.scopes[scope].my_path, &path);
                let tpl_scope = match self.get_evaluator(scope, &rel) {
                    Some(t) => t,
                    None => {
                        let t = match self.new_evaluator(&rel, Some(scope)) {
                            Ok(t) => t,
                            Err(e) => {
                                return Err(e);
                            },
                        };
                        if scope < self.scopes.len() {
                            self.add_evaluator(scope, &rel, t);
                        }
                        t
                    },
                };
                if tpl_scope >= self.scopes.len() {
                    return Err(EvalError::ComplexNotFound(rel));
                }
                let inst = self.instantiate(tpl_scope, inputs);
                if scope < self.scopes.len() && node < self.scopes[scope].nodes.len() {
                    self.add_running(scope, my_id, inst);
                }
                match self.get_outputs(inst, fuel - 1) {
                    Ok(outs) => Ok(EvalOutcome::Produced(outs)),
                    Err(e) => Err(e),
                }
            },
        }
    }

    /// The child instance registered for a sub-graph node: the first
    /// binding of the node's identifier in the scope's running map.
    #[verifier::loop_isolation(false)]
    pub fn find_running(&self, scope: usize, id: NodeId) -> (r: Option<usize>)
        requires
            scope < self.scopes@.len(),
        ensures
            r == crate::evaluator::id_lookup(self.scopes@[scope as int].children@, id.0),
    {
        let n = self.scopes[scope].children.len();
        let mut i: usize = 0;
        while i < n
            invariant
                scope < self.scopes@.len(),
                n == self.scopes@[scope as int].children@.len(),
                i <= n,
                forall|j: int| 0 <= j < i ==> (#[trigger] self.scopes@[scope as int].children@[
                    j]).0 != id.0,
            decreases n - i,
        {
            if self.scopes[scope].children[i].0 == id.0 {
                proof {
                    lemma_id_lookup_prefix(
                        self.scopes@[scope as int].children@,
                        id.0,
                        i as int,
                    );
                }
                return Some(self.scopes[scope].children[i].1);
            }
            i = i + 1;
        }
        proof {
            lemma_id_lookup_absent(self.scopes@[scope as int].children@, id.0);
        }
        Option::None
    }

    /// Registers a live child instance under a sub-graph node's id: the
    /// binding is appended, so an existing first binding keeps winning
    /// and a fresh id resolves to this child.
    pub fn add_running(&mut self, scope: usize, id: NodeId, child: usize)
        requires
            engine_wf(*old(self)),
            scope < old(self).scopes@.len(),
        ensures
            engine_wf(*final(self)),
            crate::evaluator::step_frame(*old(self), *final(self)),
            final(self).mails@ == old(self).mails@,
            final(self).templates@ == old(self).templates@,
            final(self).scopes@.len() == old(self).scopes@.len(),
            final(self).scopes@[scope as int].children@ == old(self).scopes@[
                scope as int].children@.push((id.0, child)),
            forall|i: int| 0 <= i < old(self).scopes@.len() && i != scope
                ==> final(self).scopes@[i] == old(self).scopes@[i],
            crate::evaluator::id_lookup(old(self).scopes@[scope as int].children@, id.0)
                is None ==> crate::evaluator::id_lookup(
                final(self).scopes@[scope as int].children@,
                id.0,
            ) == Some(child),
    {
        let ghost pre = self.scopes@;
        self.scopes[scope].children.push((id.0, child));
        proof {
            let post = self.scopes@;
            assert(post =~= pre.update(scope as int, post[scope as int]));
            lemma_id_lookup_push(pre[scope as int].children@, id.0, (id.0, child));
        }
    }

    /// Drives a scope to its outputs: force-trigger every dangling node
    /// once so pure side-effect chains run, then listen on each output
    /// port of the end node; a `None` on any port surfaces as the closed
    /// error.
    #[verifier::loop_isolation(false)]
    pub fn get_outputs(&mut self, scope: usize, fuel: u64) -> (r: Result<Vec<DataValue>, EvalError>)
        requires
            engine_wf(*old(self)),
            scope < old(self).scopes@.len(),
        ensures
            step_frame(*old(self), *final(self)),
            fuel == 0 ==> (r matches Err(e) && e matches EvalError::Closed),
            fuel > 0 && (forall|k: int| 0 <= k < old(self).scopes@[scope as int].nodes@.len()
                ==> (#[trigger] old(self).scopes@[scope as int].nodes@[k]).id != old(
                self,
            ).scopes@[scope as int].end_node) ==> (r matches Err(e) && e
                matches EvalError::NoEndNode),
            (r matches Err(e) && e matches EvalError::NoEndNode) ==> (forall|k: int| 0 <= k
                < old(self).scopes@[scope as int].nodes@.len() ==> (#[trigger] old(self).scopes@[
                scope as int].nodes@[k]).id != old(self).scopes@[scope as int].end_node),
            r matches Ok(out) ==> (exists|k: int| 0 <= k < old(self).scopes@[
                scope as int].nodes@.len() && (#[trigger] old(self).scopes@[
                scope as int].nodes@[k]).id == old(self).scopes@[scope as int].end_node
                && out@.len() == old(self).scopes@[scope as int].nodes@[k].outputs@.len()),
        decreases fuel, 9int,
    {
        if fuel == 0 {
            return Err(EvalError::Closed);
        }
        let dangling = self.dangling_of(scope);
        let end_id = self.scopes[scope].end_node;
        let mut d: usize = 0;
        while d < dangling.len()
            invariant
                engine_wf(*self),
                step_frame(*old(self), *self),
                scope < self.scopes@.len(),
                d <= dangling@.len(),
            decreases dangling@.len() - d,
        {
            if dangling[d] == end_id {
                d = d + 1;
                continue;
            }
            match self.find_node_scoped(scope, dangling[d]) {
                Some(k) => {
                    let was_waiting = self.trigger_processing(scope, k);
                    if was_waiting {
                        match self.run_cycle(scope, k, fuel - 1) {
                            Ok(_) => {},
                            Err(_) => {},
                        }
                    }
                },
                None => {},
            }
            d = d + 1;
        }
        let end = self.scopes[scope].end_node;
        proof {
            assert(end == old(self).scopes@[scope as int].end_node);
        }
        let end_idx = match self.find_node_scoped(scope, end) {
            Some(k) => k,
            None => {
                proof {
                    assert forall|k: int| 0 <= k < old(self).scopes@[scope as int].nodes@.len()
                        implies (#[trigger] old(self).scopes@[scope as int].nodes@[k]).id
                        != old(self).scopes@[scope as int].end_node by {
                        assert(self.scopes@[scope as int].nodes@[k].id == old(self).scopes@[
                            scope as int].nodes@[k].id);
                    }
                }
                return Err(EvalError::NoEndNode);
            },
        };
        proof {
            assert(old(self).scopes@[scope as int].nodes@[end_idx as int].id == old(
                self,
            ).scopes@[scope as int].end_node);
        }
        let nports = self.scopes[scope].nodes[end_idx].outputs.len();
        proof {
            assert(nports == old(self).scopes@[scope as int].nodes@[
                end_idx as int].outputs@.len());
        }
        let mut out: Vec<DataValue> = Vec::new();
        let mut p: usize = 0;
        while p < nports
            invariant
                engine_wf(*self),
                step_frame(*old(self), *self),
                scope < self.scopes@.len(),
                end_idx < self.scopes@[scope as int].nodes@.len(),
                p <= nports,
                out@.len() == p,
            decreases nports - p,
        {
            match self.listen(scope, end_idx, p, fuel - 1) {
                Ok(Some(v)) => {
                    out.push(v);
                },
                Ok(None) => {
                    return Err(EvalError::Closed);
                },
                Err(e) => {
                    return Err(e);
                },
            }
            p = p + 1;
        }
        Ok(out)
    }
}

/// The position of the last separator in a path, if any.
pub open spec fn last_sep(s: Seq<char>) -> Option<int>
    decreases s.len(),
{
    if s.len() == 0 {
        None
    } else if s.last() == '/' {
        Some(s.len() - 1)
    } else {
        last_sep(s.drop_last())
    }
}

/// The directory part of a path: everything before the last separator,
/// or nothing when there is none, which is how sub-graph references are
/// resolved relative to the directory of the enclosing file.
#[verifier::loop_isolation(false)]
pub fn dirname(path: &String) -> (r: String)
    ensures
        r@ == (match last_sep(path@) {
            Some(i) => path@.take(i),
            None => Seq::<char>::empty(),
        }),
{
    let cs = crate::strutil::str_chars(path.as_str());
    let mut last: Option<usize> = Option::None;
    let mut i: usize = 0;
    while i < cs.len()
        invariant
            i <= cs@.len(),
            (match last {
                Some(l) => l < i && last_sep(cs@.take(i as int)) == Some(l as int),
                None => last_sep(cs@.take(i as int)) is None,
            }),
        decreases cs@.len() - i,
    {
        proof {
            assert(cs@.take(i + 1).drop_last() =~= cs@.take(i as int));
            assert(cs@.take(i + 1).last() == cs@[i as int]);
        }
        if cs[i] == '/' {
            last = Some(i);
        }
        i = i + 1;
    }
    proof {
        assert(cs@.take(cs@.len() as int) =~= cs@);
    }
    match last {
        Some(l) => {
            let mut out: Vec<char> = Vec::new();
            let mut k: usize = 0;
            while k < l
                invariant
                    l < cs@.len(),
                    k <= l,
                    out@ == cs@.take(k as int),
                decreases l - k,
            {
                out.push(cs[k]);
                proof {
                    assert(out@ =~= cs@.take(k + 1));
                }
                k = k + 1;
            }
            chars_to_string(&out)
        },
        None => String::new(),
    }
}

/// A path joined under a directory with the separator, or alone when the
/// directory is empty.
#[verifier::loop_isolation(false)]
pub fn join_path(dir: &String, rest: &String) -> (r: String)
    ensures
        dir@.len() == 0 ==> r@ == rest@,
        dir@.len() > 0 ==> r@ == dir@ + seq!['/'] + rest@,
{
    if dir.as_str().unicode_len() == 0 {
        return rest.clone();
    }
    let mut out: Vec<char> = Vec::new();
    let dcs = crate::strutil::str_chars(dir.as_str());
    let mut i: usize = 0;
    while i < dcs.len()
        invariant
            i <= dcs@.len(),
            out@ == dcs@.take(i as int),
        decreases dcs@.len() - i,
    {
        out.push(dcs[i]);
        proof {
            assert(out@ =~= dcs@.take(i + 1));
        }
        i = i + 1;
    }
    proof {
        assert(dcs@.take(dcs@.len() as int) =~= dcs@);
    }
    out.push('/');
    let rcs = crate::strutil::str_chars(rest.as_str());
    let mut k: usize = 0;
    while k < rcs.len()
        invariant
            k <= rcs@.len(),
            out@ == dcs@ + seq!['/'] + rcs@.take(k as int),
        decreases rcs@.len() - k,
    {
        out.push(rcs[k]);
        proof {
            assert(out@ =~= dcs@ + seq!['/'] + rcs@.take(k + 1));
        }
        k = k + 1;
    }
    proof {
        assert(rcs@.take(rcs@.len() as int) =~= rcs@);
    }
    chars_to_string(&out)
}

} // verus!
