//! Execution-node operations: registering listeners, triggering, and the
//! two broadcasts. A listener is a single-shot mailbox: it is created
//! empty, it is written at most once — `Some(value)` when the node
//! drains a produced output, `None` when the node broadcast-closes — and
//! its reader takes the one message. Delivery never overwrites: a
//! mailbox that already holds a message is left alone, so no listener
//! can ever receive two messages.
use vstd::prelude::*;
use crate::errors::EvalError;
use crate::evaluator::{Engine, Mail, NodeState, Evaluator, Slot, engine_wf};
use crate::ids::NodeId;
use crate::value::DataValue;

verus! {

broadcast use crate::evaluator::lemma_step_frame_trans;

/// The message a mailbox holds, if it has been delivered and not yet
/// taken.
pub open spec fn mail_msg(m: Mail) -> Option<Option<crate::value::ValView>> {
    match m {
        Mail::Full(v) => Some(match v {
            Some(d) => Some(d@),
            None => None,
        }),
        _ => None,
    }
}

/// A mail sequence evolves by delivery alone: every already-written
/// mailbox keeps its message (or is taken by its one reader), and no
/// mailbox is written twice.
pub open spec fn mails_write_once(a: Seq<Mail>, b: Seq<Mail>) -> bool {
    &&& b.len() >= a.len()
    &&& forall|m: int| 0 <= m < a.len() ==> ((#[trigger] a[m]) is Full ==> b[m] == a[m])
    &&& forall|m: int| 0 <= m < a.len() ==> ((#[trigger] a[m]) is Taken ==> b[m] is Taken)
}

impl Engine {
    /// A fresh, empty mailbox.
    pub fn new_mail(&mut self) -> (m: usize)
        requires
            engine_wf(*old(self)),
        ensures
            engine_wf(*final(self)),
            crate::evaluator::step_frame(*old(self), *final(self)),
            final(self).mails@ == old(self).mails@.push(Mail::Empty),
            m == old(self).mails@.len(),
            final(self).scopes@ == old(self).scopes@,
            final(self).templates@ == old(self).templates@,
            mails_write_once(old(self).mails@, final(self).mails@),
    {
        let m = self.mails.len();
        self.mails.push(Mail::Empty);
        m
    }

    /// Takes the message of a mailbox: the delivered message if one is
    /// there, nothing if the mailbox is still empty or already taken.
    pub fn read_mail(&mut self, m: usize) -> (r: Option<Option<DataValue>>)
        requires
            engine_wf(*old(self)),
            m < old(self).mails@.len(),
        ensures
            engine_wf(*final(self)),
            crate::evaluator::step_frame(*old(self), *final(self)),
            final(self).scopes@ == old(self).scopes@,
            final(self).templates@ == old(self).templates@,
            final(self).mails@.len() == old(self).mails@.len(),
            forall|k: int| 0 <= k < old(self).mails@.len() && k != m
                ==> final(self).mails@[k] == old(self).mails@[k],
            (match mail_msg(old(self).mails@[m as int]) {
                Some(msg) => {
                    &&& (r matches Some(got) && (match (got, msg) {
                        (Some(d), Some(v)) => d@ == v,
                        (None, None) => true,
                        _ => false,
                    }))
                    &&& final(self).mails@[m as int] is Taken
                },
                None => r is None && final(self).mails@[m as int] == old(self).mails@[m as int],
            }),
    {
        let is_full = match &self.mails[m] {
            Mail::Full(_) => true,
            _ => false,
        };
        if is_full {
            let mut taken = Mail::Taken;
            let slot = &mut self.mails[m];
            core::mem::swap(slot, &mut taken);
            match taken {
                Mail::Full(v) => Some(v),
                _ => None,
            }
        } else {
            None
        }
    }

    /// Registers a fresh mailbox on an output slot of a node, without
    /// triggering it. Fails exactly when the port does not exist.
    pub fn register_listener(&mut self, scope: usize, node: usize, port: usize) -> (r: Result<
        usize,
        EvalError,
    >)
        requires
            engine_wf(*old(self)),
            scope < old(self).scopes@.len(),
            node < old(self).scopes@[scope as int].nodes@.len(),
        ensures
            engine_wf(*final(self)),
            crate::evaluator::step_frame(*old(self), *final(self)),
            final(self).templates@ == old(self).templates@,
            mails_write_once(old(self).mails@, final(self).mails@),
            port >= old(self).scopes@[scope as int].nodes@[node as int].outputs@.len()
                ==> (r matches Err(e) && e matches EvalError::PortOutOfBounds(p) && p == port
                && final(self).scopes@ == old(self).scopes@ && final(self).mails@
                == old(self).mails@),
            port < old(self).scopes@[scope as int].nodes@[node as int].outputs@.len() ==> (
            r matches Ok(m) && m == old(self).mails@.len() && final(self).mails@
                == old(self).mails@.push(Mail::Empty) && listener_added(
                old(self).scopes@,
                final(self).scopes@,
                scope as int,
                node as int,
                port as int,
                m,
            )),
    {
        let ghost pre = self.scopes@;
        if port >= self.scopes[scope].nodes[node].outputs.len() {
            return Err(EvalError::PortOutOfBounds(port));
        }
        let m = self.new_mail();
        self.scopes[scope].nodes[node].outputs[port].pending.push(m);
        proof {
            let post = final(self).scopes@;
            assert(post =~= pre.update(scope as int, post[scope as int]));
            assert(post[scope as int].nodes@ =~= pre[scope as int].nodes@.update(
                node as int,
                post[scope as int].nodes@[node as int],
            ));
            assert(post[scope as int].nodes@[node as int].outputs@ =~= pre[
                scope as int].nodes@[node as int].outputs@.update(
                port as int,
                post[scope as int].nodes@[node as int].outputs@[port as int],
            ));
            let a = *old(self);
            let b = *final(self);
            assert forall|i: int, k: int, p: int, j: int|
                #![trigger a.scopes@[i].nodes@[k].outputs@[p].pending@[j]]
                0 <= i < a.scopes@.len() && 0 <= k < a.scopes@[i].nodes@.len() && 0 <= p
                    < a.scopes@[i].nodes@[k].outputs@.len() && 0 <= j < a.scopes@[i].nodes@[
                    k].outputs@[p].pending@.len() && a.scopes@[i].nodes@[k].outputs@[
                    p].pending@[j] < a.mails@.len() implies
                crate::evaluator::pending_or_delivered(
                b,
                i,
                k,
                p,
                a.scopes@[i].nodes@[k].outputs@[p].pending@[j],
            ) by {
                if i == scope && k == node && p == port {
                    assert(b.scopes@[i].nodes@[k].outputs@[p].pending@[j] == a.scopes@[
                        i].nodes@[k].outputs@[p].pending@[j]);
                } else {
                    assert(b.scopes@[i].nodes@[k].outputs@[p] == a.scopes@[i].nodes@[
                        k].outputs@[p]);
                }
            }
        }
        Ok(m)
    }

    /// If the node is waiting, marks it processing, so that its next
    /// cycle runs; any other state is left alone.
    pub fn trigger_processing(&mut self, scope: usize, node: usize) -> (was_waiting: bool)
        requires
            engine_wf(*old(self)),
            scope < old(self).scopes@.len(),
            node < old(self).scopes@[scope as int].nodes@.len(),
        ensures
            engine_wf(*final(self)),
            crate::evaluator::step_frame(*old(self), *final(self)),
            final(self).templates@ == old(self).templates@,
            final(self).mails@ == old(self).mails@,
            was_waiting == (old(self).scopes@[scope as int].nodes@[node as int].state
                == NodeState::Waiting),
            was_waiting ==> node_state_set(
                old(self).scopes@,
                final(self).scopes@,
                scope as int,
                node as int,
                NodeState::Processing,
            ),
            !was_waiting ==> final(self).scopes@ == old(self).scopes@,
    {
        let ghost pre = self.scopes@;
        let waiting = match self.scopes[scope].nodes[node].state {
            NodeState::Waiting => true,
            _ => false,
        };
        if waiting {
            self.scopes[scope].nodes[node].state = NodeState::Processing;
            proof {
                let post = final(self).scopes@;
                assert(post =~= pre.update(scope as int, post[scope as int]));
                assert(post[scope as int].nodes@ =~= pre[scope as int].nodes@.update(
                    node as int,
                    post[scope as int].nodes@[node as int],
                ));
            }
        }
        waiting
    }

    /// Puts a node back to waiting after a successful cycle.
    pub fn set_waiting(&mut self, scope: usize, node: usize)
        requires
            engine_wf(*old(self)),
            scope < old(self).scopes@.len(),
            node < old(self).scopes@[scope as int].nodes@.len(),
        ensures
            engine_wf(*final(self)),
            crate::evaluator::step_frame(*old(self), *final(self)),
            final(self).templates@ == old(self).templates@,
            final(self).mails@ == old(self).mails@,
            node_state_set(
                old(self).scopes@,
                final(self).scopes@,
                scope as int,
                node as int,
                NodeState::Waiting,
            ),
    {
        let ghost pre = self.scopes@;
        self.scopes[scope].nodes[node].state = NodeState::Waiting;
        proof {
            let post = final(self).scopes@;
            assert(post =~= pre.update(scope as int, post[scope as int]));
            assert(post[scope as int].nodes@ =~= pre[scope as int].nodes@.update(
                node as int,
                post[scope as int].nodes@[node as int],
            ));
        }
    }

    /// The lifecycle state of a node.
    pub fn node_state(&self, scope: usize, node: usize) -> (r: NodeState)
        requires
            scope < self.scopes@.len(),
            node < self.scopes@[scope as int].nodes@.len(),
        ensures
            r == self.scopes@[scope as int].nodes@[node as int].state,
    {
        self.scopes[scope].nodes[node].state
    }

    /// Delivers a message to every still-empty mailbox pending on one
    /// output slot and empties the slot. A mailbox that already holds a
    /// message is left alone, so delivery can never give a listener a
    /// second message.
    pub fn deliver_slot(&mut self, scope: usize, node: usize, port: usize, msg: &Option<DataValue>)
        requires
            engine_wf(*old(self)),
            scope < old(self).scopes@.len(),
            node < old(self).scopes@[scope as int].nodes@.len(),
            port < old(self).scopes@[scope as int].nodes@[node as int].outputs@.len(),
        ensures
            engine_wf(*final(self)),
            crate::evaluator::step_frame(*old(self), *final(self)),
            final(self).templates@ == old(self).templates@,
            mails_write_once(old(self).mails@, final(self).mails@),
            final(self).mails@.len() == old(self).mails@.len(),
            crate::evaluator::scopes_preserve_nodes(old(self).scopes@, final(self).scopes@),
            slot_cleared(old(self).scopes@, final(self).scopes@, scope as int, node as int,
                port as int),
            forall|j: int|
                0 <= j < old(self).scopes@[scope as int].nodes@[node as int].outputs@[
                    port as int].pending@.len() ==> {
                    let m = (#[trigger] old(self).scopes@[scope as int].nodes@[node as int]
                        .outputs@[port as int].pending@[j]) as int;
                    old(self).mails@[m] is Empty ==> (final(self).mails@[m] matches Mail::Full(
                        got,
                    ) && (match (got, *msg) {
                        (Some(d), Some(v)) => d@ == v@,
                        (None, None) => true,
                        _ => false,
                    }))
                },
            forall|m: int| 0 <= m < old(self).mails@.len() && !old(self).scopes@[
                scope as int].nodes@[node as int].outputs@[port as int].pending@.contains(
                m as usize,
            ) ==> final(self).mails@[m] == old(self).mails@[m],
            forall|m: int| 0 <= m < old(self).mails@.len() ==> (#[trigger] final(self).mails@[m])
                == old(self).mails@[m] || (final(self).mails@[m] matches Mail::Full(got) && (
            match (got, *msg) {
                (Some(d), Some(v)) => d@ == v@,
                (None, None) => true,
                _ => false,
            })),
            forall|j: int| 0 <= j < old(self).scopes@[scope as int].nodes@[node as int].outputs@[
                port as int].pending@.len() && (#[trigger] old(self).scopes@[scope as int].nodes@[
                node as int].outputs@[port as int].pending@[j]) < old(self).mails@.len()
                ==> !(final(self).mails@[old(self).scopes@[scope as int].nodes@[
                node as int].outputs@[port as int].pending@[j] as int] is Empty),
    {
        let ghost pre_scopes = self.scopes@;
        let ghost pre_mails = self.mails@;
        let ghost pend = pre_scopes[scope as int].nodes@[node as int].outputs@[
            port as int].pending@;
        let mut drained: Vec<usize> = Vec::new();
        let taken = &mut self.scopes[scope].nodes[node].outputs[port].pending;
        core::mem::swap(taken, &mut drained);
        proof {
            let post = self.scopes@;
            assert(post =~= pre_scopes.update(scope as int, post[scope as int]));
            assert(post[scope as int].nodes@ =~= pre_scopes[scope as int].nodes@.update(
                node as int,
                post[scope as int].nodes@[node as int],
            ));
            assert(post[scope as int].nodes@[node as int].outputs@ =~= pre_scopes[
                scope as int].nodes@[node as int].outputs@.update(
                port as int,
                post[scope as int].nodes@[node as int].outputs@[port as int],
            ));
            assert(drained@ == pend);
        }
        let ghost mid_scopes = self.scopes@;
        let mut j: usize = 0;
        while j < drained.len()
            invariant
                engine_wf(*self),
                self.scopes@ == mid_scopes,
                self.templates@ == old(self).templates@,
                drained@ == pend,
                j <= pend.len(),
                self.mails@.len() == pre_mails.len(),
                mails_write_once(pre_mails, self.mails@),
                forall|i: int| 0 <= i < pend.len() ==> pend[i] < pre_mails.len(),
                forall|i: int| 0 <= i < j ==> (pre_mails[(#[trigger] pend[i]) as int] is Empty
                    ==> (self.mails@[pend[i] as int] matches Mail::Full(got) && (match (
                    got,
                    *msg,
                ) {
                    (Some(d), Some(v)) => d@ == v@,
                    (None, None) => true,
                    _ => false,
                }))),
                forall|m: int| 0 <= m < pre_mails.len() && !pend.contains(m as usize)
                    ==> self.mails@[m] == pre_mails[m],
                forall|m: int| 0 <= m < pre_mails.len() ==> (#[trigger] self.mails@[m])
                    == pre_mails[m] || (self.mails@[m] matches Mail::Full(got) && (match (
                    got,
                    *msg,
                ) {
                    (Some(d), Some(v)) => d@ == v@,
                    (None, None) => true,
                    _ => false,
                })),
                self.files@ == old(self).files@,
                self.sockets@ == old(self).sockets@,
                self.agent_replies@ == old(self).agent_replies@,
                forall|i2: int| 0 <= i2 < j ==> !(self.mails@[(#[trigger] pend[i2]) as int]
                    is Empty),
            decreases drained@.len() - j,
        {
            let m = drained[j];
            let is_empty = match &self.mails[m] {
                Mail::Empty => true,
                _ => false,
            };
            if is_empty {
                let payload = match msg {
                    Some(v) => Some(v.duplicate()),
                    None => None,
                };
                self.mails[m] = Mail::Full(payload);
            }
            proof {
                assert(pend.contains(pend[j as int]));
                assert forall|i: int| 0 <= i < j + 1 implies (pre_mails[(#[trigger] pend[i]) as int]
                    is Empty ==> (self.mails@[pend[i] as int] matches Mail::Full(got) && (match (
                    got,
                    *msg,
                ) {
                    (Some(d), Some(v)) => d@ == v@,
                    (None, None) => true,
                    _ => false,
                }))) by {
                    assert(pend.contains(pend[i]));
                }
                assert forall|i2: int| 0 <= i2 < j + 1 implies !(self.mails@[
                    (#[trigger] pend[i2]) as int] is Empty) by {
                    assert(pend.contains(pend[i2]));
                    if pre_mails[pend[i2] as int] is Empty {
                    } else {
                        assert(self.mails@[pend[i2] as int] == pre_mails[pend[i2] as int] || (
                        self.mails@[pend[i2] as int] matches Mail::Full(_)));
                    }
                }
            }
            j = j + 1;
        }
        proof {
            let a = *old(self);
            let b = *final(self);
            assert forall|i: int, k: int, p2: int, j2: int|
                #![trigger a.scopes@[i].nodes@[k].outputs@[p2].pending@[j2]]
                0 <= i < a.scopes@.len() && 0 <= k < a.scopes@[i].nodes@.len() && 0 <= p2
                    < a.scopes@[i].nodes@[k].outputs@.len() && 0 <= j2 < a.scopes@[i].nodes@[
                    k].outputs@[p2].pending@.len() && a.scopes@[i].nodes@[k].outputs@[
                    p2].pending@[j2] < a.mails@.len() implies
                crate::evaluator::pending_or_delivered(
                b,
                i,
                k,
                p2,
                a.scopes@[i].nodes@[k].outputs@[p2].pending@[j2],
            ) by {
                if i == scope && k == node && p2 == port {
                    let m = a.scopes@[i].nodes@[k].outputs@[p2].pending@[j2];
                    assert(!(b.mails@[m as int] is Empty));
                } else {
                    assert(b.scopes@[i].nodes@[k].outputs@[p2] == a.scopes@[i].nodes@[
                        k].outputs@[p2]);
                    assert(b.scopes@[i].nodes@[k].outputs@[p2].pending@[j2] == a.scopes@[
                        i].nodes@[k].outputs@[p2].pending@[j2]);
                }
            }
        }
    }

    /// Drains every output slot with `None` and closes the node: the
    /// close broadcast of the lifecycle.
    #[verifier::loop_isolation(false)]
    pub fn broadcast_closed(&mut self, scope: usize, node: usize)
        requires
            engine_wf(*old(self)),
            scope < old(self).scopes@.len(),
            node < old(self).scopes@[scope as int].nodes@.len(),
        ensures
            engine_wf(*final(self)),
            crate::evaluator::step_frame(*old(self), *final(self)),
            final(self).templates@ == old(self).templates@,
            mails_write_once(old(self).mails@, final(self).mails@),
            final(self).mails@.len() == old(self).mails@.len(),
            final(self).scopes@.len() == old(self).scopes@.len(),
            crate::evaluator::scopes_preserve_nodes(old(self).scopes@, final(self).scopes@),
            final(self).scopes@[scope as int].nodes@[node as int].state == NodeState::Closed,
            forall|p: int, j: int|
                #![trigger old(self).scopes@[scope as int].nodes@[node as int].outputs@[p].pending@[j]]
                0 <= p < old(self).scopes@[scope as int].nodes@[node as int].outputs@.len() && 0
                    <= j < old(self).scopes@[scope as int].nodes@[node as int].outputs@[
                    p].pending@.len() && old(self).mails@[old(self).scopes@[scope as int].nodes@[
                    node as int].outputs@[p].pending@[j] as int] is Empty ==> final(self).mails@[
                    old(self).scopes@[scope as int].nodes@[node as int].outputs@[p].pending@[
                    j] as int] matches Mail::Full(None),
            forall|p: int, j: int|
                #![trigger old(self).scopes@[scope as int].nodes@[node as int].outputs@[p].pending@[j]]
                0 <= p < old(self).scopes@[scope as int].nodes@[node as int].outputs@.len() && 0
                    <= j < old(self).scopes@[scope as int].nodes@[node as int].outputs@[
                    p].pending@.len() && old(self).scopes@[scope as int].nodes@[
                    node as int].outputs@[p].pending@[j] < old(self).mails@.len()
                    ==> !(final(self).mails@[old(self).scopes@[scope as int].nodes@[
                    node as int].outputs@[p].pending@[j] as int] is Empty),
    {
        let ghost pre = self.mails@;
        proof {
            crate::evaluator::lemma_step_frame_refl(*old(self));
        }
        let nports = self.scopes[scope].nodes[node].outputs.len();
        let mut p: usize = 0;
        while p < nports
            invariant
                engine_wf(*self),
                crate::evaluator::step_frame(*old(self), *self),
                scope < self.scopes@.len(),
                node < self.scopes@[scope as int].nodes@.len(),
                nports == self.scopes@[scope as int].nodes@[node as int].outputs@.len(),
                p <= nports,
                self.templates@ == old(self).templates@,
                self.mails@.len() == pre.len(),
                mails_write_once(pre, self.mails@),
                self.scopes@.len() == old(self).scopes@.len(),
                crate::evaluator::scopes_preserve_nodes(old(self).scopes@, self.scopes@),
                forall|q: int, j: int|
                    #![trigger old(self).scopes@[scope as int].nodes@[node as int].outputs@[q].pending@[j]]
                    0 <= q < p && 0 <= j < old(self).scopes@[scope as int].nodes@[
                        node as int].outputs@[q].pending@.len() && pre[old(self).scopes@[
                        scope as int].nodes@[node as int].outputs@[q].pending@[j] as int]
                        is Empty ==> self.mails@[old(self).scopes@[scope as int].nodes@[
                        node as int].outputs@[q].pending@[j] as int] matches Mail::Full(None),
                forall|q: int| p <= q < nports ==> self.scopes@[scope as int].nodes@[
                    node as int].outputs@[q] == old(self).scopes@[scope as int].nodes@[
                    node as int].outputs@[q],
                nports == old(self).scopes@[scope as int].nodes@[node as int].outputs@.len(),
                forall|m: int| 0 <= m < pre.len() ==> (#[trigger] self.mails@[m]) == pre[m] || (
                self.mails@[m] matches Mail::Full(None)),
            decreases nports - p,
        {
            let ghost before_mails = self.mails@;
            let ghost before_scopes = self.scopes@;
            self.deliver_slot(scope, node, p, &None);
            proof {
                assert forall|q: int, j: int|
                    #![trigger old(self).scopes@[scope as int].nodes@[node as int].outputs@[q].pending@[j]]
                    0 <= q < p + 1 && 0 <= j < old(self).scopes@[scope as int].nodes@[
                        node as int].outputs@[q].pending@.len() && pre[old(self).scopes@[
                        scope as int].nodes@[node as int].outputs@[q].pending@[j] as int]
                        is Empty implies self.mails@[old(self).scopes@[scope as int].nodes@[
                        node as int].outputs@[q].pending@[j] as int] matches Mail::Full(None) by {
                    let m = old(self).scopes@[scope as int].nodes@[node as int].outputs@[
                        q].pending@[j] as int;
                    assert(crate::evaluator::node_mails_wf(
                        old(self).scopes@[scope as int].nodes@[node as int],
                        pre.len() as int,
                    ));
                    assert(0 <= m < pre.len());
                    if q < p {
                        assert(before_mails[m] matches Mail::Full(None));
                        assert(self.mails@[m] == before_mails[m]);
                    } else {
                        assert(before_scopes[scope as int].nodes@[node as int].outputs@[
                            p as int].pending@ == old(self).scopes@[scope as int].nodes@[
                            node as int].outputs@[p as int].pending@);
                        if before_mails[m] is Empty {
                        } else {
                            assert(before_mails[m] == pre[m] || (before_mails[m]
                                matches Mail::Full(None)));
                            assert(before_mails[m] matches Mail::Full(None));
                            assert(self.mails@[m] == before_mails[m]);
                        }
                    }
                }
            }
            p = p + 1;
        }
        let ghost before_close = *self;
        self.scopes[scope].nodes[node].state = NodeState::Closed;
        proof {
            let post = self.scopes@;
            assert(post =~= before_close.scopes@.update(scope as int, post[scope as int]));
            assert(post[scope as int].nodes@ =~= before_close.scopes@[
                scope as int].nodes@.update(node as int, post[scope as int].nodes@[node as int]));
            assert forall|i: int, k: int| 0 <= i < before_close.scopes@.len() && 0 <= k
                < before_close.scopes@[i].nodes@.len() implies (#[trigger] final(self).scopes@[
                i].nodes@[k]).outputs == before_close.scopes@[i].nodes@[k].outputs by {
                if i == scope {
                    if k == node {
                    } else {
                        assert(final(self).scopes@[i].nodes@[k] == before_close.scopes@[
                            i].nodes@[k]);
                    }
                } else {
                    assert(final(self).scopes@[i] == before_close.scopes@[i]);
                }
            }
            crate::evaluator::lemma_pending_preserved_slots_eq(before_close, *final(self));
            assert(crate::evaluator::step_frame(before_close, *final(self)));
        }
    }
}

/// The two scope sequences agree except that one pending list gained one
/// listener at the end.
pub open spec fn listener_added(
    a: Seq<Evaluator>,
    b: Seq<Evaluator>,
    s: int,
    n: int,
    p: int,
    m: usize,
) -> bool {
    &&& b.len() == a.len()
    &&& forall|i: int| 0 <= i < a.len() && i != s ==> b[i] == a[i]
    &&& b[s].nodes@.len() == a[s].nodes@.len()
    &&& forall|k: int| 0 <= k < a[s].nodes@.len() && k != n ==> b[s].nodes@[k] == a[s].nodes@[k]
    &&& b[s].nodes@[n].outputs@.len() == a[s].nodes@[n].outputs@.len()
    &&& forall|q: int| 0 <= q < a[s].nodes@[n].outputs@.len() && q != p
        ==> b[s].nodes@[n].outputs@[q] == a[s].nodes@[n].outputs@[q]
    &&& b[s].nodes@[n].outputs@[p].pending@ == a[s].nodes@[n].outputs@[p].pending@.push(m)
    &&& b[s].nodes@[n].id == a[s].nodes@[n].id
    &&& b[s].nodes@[n].inst == a[s].nodes@[n].inst
    &&& b[s].nodes@[n].inputs == a[s].nodes@[n].inputs
    &&& b[s].nodes@[n].state == a[s].nodes@[n].state
    &&& b[s].nodes@[n].stored == a[s].nodes@[n].stored
    &&& b[s].nodes@[n].weak == a[s].nodes@[n].weak
    &&& scope_same_but_nodes(a[s], b[s])
}

/// The two scope sequences agree except that one node's state changed.
pub open spec fn node_state_set(
    a: Seq<Evaluator>,
    b: Seq<Evaluator>,
    s: int,
    n: int,
    st: NodeState,
) -> bool {
    &&& b.len() == a.len()
    &&& forall|i: int| 0 <= i < a.len() && i != s ==> b[i] == a[i]
    &&& b[s].nodes@.len() == a[s].nodes@.len()
    &&& forall|k: int| 0 <= k < a[s].nodes@.len() && k != n ==> b[s].nodes@[k] == a[s].nodes@[k]
    &&& b[s].nodes@[n].state == st
    &&& b[s].nodes@[n].id == a[s].nodes@[n].id
    &&& b[s].nodes@[n].inst == a[s].nodes@[n].inst
    &&& b[s].nodes@[n].inputs == a[s].nodes@[n].inputs
    &&& b[s].nodes@[n].outputs == a[s].nodes@[n].outputs
    &&& b[s].nodes@[n].stored == a[s].nodes@[n].stored
    &&& b[s].nodes@[n].weak == a[s].nodes@[n].weak
    &&& scope_same_but_nodes(a[s], b[s])
}

/// The two scope sequences agree except that one pending list was
/// emptied.
pub open spec fn slot_cleared(a: Seq<Evaluator>, b: Seq<Evaluator>, s: int, n: int, p: int) -> bool {
    &&& b.len() == a.len()
    &&& forall|i: int| 0 <= i < a.len() && i != s ==> b[i] == a[i]
    &&& b[s].nodes@.len() == a[s].nodes@.len()
    &&& forall|k: int| 0 <= k < a[s].nodes@.len() && k != n ==> b[s].nodes@[k] == a[s].nodes@[k]
    &&& b[s].nodes@[n].outputs@.len() == a[s].nodes@[n].outputs@.len()
    &&& forall|q: int| 0 <= q < a[s].nodes@[n].outputs@.len() && q != p
        ==> b[s].nodes@[n].outputs@[q] == a[s].nodes@[n].outputs@[q]
    &&& b[s].nodes@[n].outputs@[p].pending@.len() == 0
    &&& b[s].nodes@[n].id == a[s].nodes@[n].id
    &&& b[s].nodes@[n].inst == a[s].nodes@[n].inst
    &&& b[s].nodes@[n].inputs == a[s].nodes@[n].inputs
    &&& b[s].nodes@[n].state == a[s].nodes@[n].state
    &&& b[s].nodes@[n].stored == a[s].nodes@[n].stored
    &&& b[s].nodes@[n].weak == a[s].nodes@[n].weak
    &&& scope_same_but_nodes(a[s], b[s])
}

/// All scope fields but the variable map agree.
pub open spec fn scope_same_but_variables(a: Evaluator, b: Evaluator) -> bool {
    &&& b.scope_id == a.scope_id
    &&& b.template == a.template
    &&& b.nodes == a.nodes
    &&& b.end_node == a.end_node
    &&& b.inputs == a.inputs
    &&& b.my_path == a.my_path
    &&& b.closed == a.closed
    &&& b.running == a.running
    &&& b.io_registry == a.io_registry
    &&& b.agents == a.agents
    &&& b.cache == a.cache
    &&& b.children == a.children
    &&& b.dangling == a.dangling
    &&& b.parent == a.parent
}

/// All scope fields but the node list agree.
pub open spec fn scope_same_but_nodes(a: Evaluator, b: Evaluator) -> bool {
    &&& b.scope_id == a.scope_id
    &&& b.template == a.template
    &&& b.end_node == a.end_node
    &&& b.inputs == a.inputs
    &&& b.my_path == a.my_path
    &&& b.closed == a.closed
    &&& b.running == a.running
    &&& b.io_registry == a.io_registry
    &&& b.agents == a.agents
    &&& b.variables == a.variables
    &&& b.cache == a.cache
    &&& b.children == a.children
    &&& b.dangling == a.dangling
    &&& b.parent == a.parent
}


impl Engine {
    /// Drains each output slot with its produced value, in declared
    /// order: slot `p` delivers `Some(outs[p])` to every mailbox pending
    /// on it. Ports beyond the produced outputs keep their listeners, as
    /// the pairing of slots with outputs does.
    #[verifier::loop_isolation(false)]
    pub fn broadcast_value(&mut self, scope: usize, node: usize, outs: &Vec<DataValue>)
        requires
            engine_wf(*old(self)),
            scope < old(self).scopes@.len(),
            node < old(self).scopes@[scope as int].nodes@.len(),
        ensures
            engine_wf(*final(self)),
            crate::evaluator::step_frame(*old(self), *final(self)),
            final(self).templates@ == old(self).templates@,
            mails_write_once(old(self).mails@, final(self).mails@),
            final(self).mails@.len() == old(self).mails@.len(),
            final(self).scopes@.len() == old(self).scopes@.len(),
            crate::evaluator::scopes_preserve_nodes(old(self).scopes@, final(self).scopes@),
            forall|p: int, j: int|
                #![trigger old(self).scopes@[scope as int].nodes@[node as int].outputs@[p].pending@[j]]
                0 <= p < old(self).scopes@[scope as int].nodes@[node as int].outputs@.len() && p
                    < outs@.len() && 0 <= j < old(self).scopes@[scope as int].nodes@[
                    node as int].outputs@[p].pending@.len() && old(self).mails@[old(
                    self,
                ).scopes@[scope as int].nodes@[node as int].outputs@[p].pending@[j] as int]
                    is Empty && (forall|q: int| 0 <= q < p ==> !(#[trigger] old(self).scopes@[
                    scope as int].nodes@[node as int].outputs@[q]).pending@.contains(
                    old(self).scopes@[scope as int].nodes@[node as int].outputs@[p].pending@[
                        j],
                )) ==> (final(self).mails@[old(self).scopes@[scope as int].nodes@[
                    node as int].outputs@[p].pending@[j] as int] matches Mail::Full(Some(d))
                    && d@ == outs@[p]@),
            forall|p: int, j: int|
                #![trigger old(self).scopes@[scope as int].nodes@[node as int].outputs@[p].pending@[j]]
                0 <= p < old(self).scopes@[scope as int].nodes@[node as int].outputs@.len() && p
                    < outs@.len() && 0 <= j < old(self).scopes@[scope as int].nodes@[
                    node as int].outputs@[p].pending@.len() && old(self).scopes@[
                    scope as int].nodes@[node as int].outputs@[p].pending@[j]
                    < old(self).mails@.len()
                    ==> !(final(self).mails@[old(self).scopes@[scope as int].nodes@[
                    node as int].outputs@[p].pending@[j] as int] is Empty),
    {
        let ghost pre = self.mails@;
        proof {
            crate::evaluator::lemma_step_frame_refl(*old(self));
        }
        let nports = self.scopes[scope].nodes[node].outputs.len();
        let mut p: usize = 0;
        while p < nports && p < outs.len()
            invariant
                engine_wf(*self),
                crate::evaluator::step_frame(*old(self), *self),
                p <= nports,
                self.templates@ == old(self).templates@,
                self.mails@.len() == pre.len(),
                mails_write_once(pre, self.mails@),
                self.scopes@.len() == old(self).scopes@.len(),
                crate::evaluator::scopes_preserve_nodes(old(self).scopes@, self.scopes@),
                nports == old(self).scopes@[scope as int].nodes@[node as int].outputs@.len(),
                self.scopes@[scope as int].nodes@.len() == old(self).scopes@[
                    scope as int].nodes@.len(),
                nports == self.scopes@[scope as int].nodes@[node as int].outputs@.len(),
                forall|q: int| p <= q < nports ==> self.scopes@[scope as int].nodes@[
                    node as int].outputs@[q] == old(self).scopes@[scope as int].nodes@[
                    node as int].outputs@[q],
                forall|m: int| 0 <= m < pre.len() && (#[trigger] self.mails@[m]) != pre[m]
                    ==> (exists|q: int| 0 <= q < p && (#[trigger] old(self).scopes@[
                    scope as int].nodes@[node as int].outputs@[q]).pending@.contains(
                    m as usize,
                )),
                forall|q: int, j: int|
                    #![trigger old(self).scopes@[scope as int].nodes@[node as int].outputs@[q].pending@[j]]
                    0 <= q < p && q < outs@.len() && 0 <= j < old(self).scopes@[
                        scope as int].nodes@[node as int].outputs@[q].pending@.len() && old(
                        self,
                    ).scopes@[scope as int].nodes@[node as int].outputs@[q].pending@[j]
                        < pre.len()
                        ==> !(self.mails@[old(self).scopes@[scope as int].nodes@[
                        node as int].outputs@[q].pending@[j] as int] is Empty),
                forall|q: int, j: int|
                    #![trigger old(self).scopes@[scope as int].nodes@[node as int].outputs@[q].pending@[j]]
                    0 <= q < p && q < outs@.len() && 0 <= j < old(self).scopes@[
                        scope as int].nodes@[node as int].outputs@[q].pending@.len() && pre[old(
                        self,
                    ).scopes@[scope as int].nodes@[node as int].outputs@[q].pending@[j] as int]
                        is Empty && (forall|q2: int| 0 <= q2 < q ==> !(#[trigger] old(
                        self,
                    ).scopes@[scope as int].nodes@[node as int].outputs@[q2]).pending@.contains(
                        old(self).scopes@[scope as int].nodes@[node as int].outputs@[
                            q].pending@[j],
                    )) ==> (self.mails@[old(self).scopes@[scope as int].nodes@[
                        node as int].outputs@[q].pending@[j] as int] matches Mail::Full(Some(d))
                        && d@ == outs@[q]@),
            decreases nports - p,
        {
            let msg = Some(outs[p].duplicate());
            let ghost before_mails = self.mails@;
            self.deliver_slot(scope, node, p, &msg);
            proof {
                assert forall|q: int, j: int|
                    #![trigger old(self).scopes@[scope as int].nodes@[node as int].outputs@[q].pending@[j]]
                    0 <= q < p + 1 && q < outs@.len() && 0 <= j < old(self).scopes@[
                        scope as int].nodes@[node as int].outputs@[q].pending@.len() && pre[old(
                        self,
                    ).scopes@[scope as int].nodes@[node as int].outputs@[q].pending@[j] as int]
                        is Empty && (forall|q2: int| 0 <= q2 < q ==> !(#[trigger] old(
                        self,
                    ).scopes@[scope as int].nodes@[node as int].outputs@[q2]).pending@.contains(
                        old(self).scopes@[scope as int].nodes@[node as int].outputs@[
                            q].pending@[j],
                    )) implies (self.mails@[old(self).scopes@[scope as int].nodes@[
                        node as int].outputs@[q].pending@[j] as int] matches Mail::Full(Some(d))
                        && d@ == outs@[q]@) by {
                    let m = old(self).scopes@[scope as int].nodes@[node as int].outputs@[
                        q].pending@[j] as int;
                    assert(crate::evaluator::node_mails_wf(
                        old(self).scopes@[scope as int].nodes@[node as int],
                        pre.len() as int,
                    ));
                    assert(0 <= m < pre.len());
                    if q < p {
                        assert(before_mails[m] matches Mail::Full(Some(d)) && d@ == outs@[q]@);
                        assert(self.mails@[m] == before_mails[m]);
                    } else {
                        if before_mails[m] != pre[m] {
                            let q2 = choose|q2: int| 0 <= q2 < p && (#[trigger] old(
                                self,
                            ).scopes@[scope as int].nodes@[node as int].outputs@[
                                q2]).pending@.contains(m as usize);
                            assert(false);
                        }
                        assert(before_mails[m] is Empty);
                        assert(old(self).scopes@[scope as int].nodes@[node as int].outputs@[
                            q].pending@.contains(old(self).scopes@[scope as int].nodes@[
                            node as int].outputs@[q].pending@[j]));
                    }
                }
            }
            p = p + 1;
        }
    }

    /// The node's memoized per-invocation value, copied out.
    pub fn get_stored(&self, scope: usize, node: usize) -> (r: Option<DataValue>)
        requires
            scope < self.scopes@.len(),
            node < self.scopes@[scope as int].nodes@.len(),
        ensures
            (match (r, self.scopes@[scope as int].nodes@[node as int].stored) {
                (Some(a), Some(b)) => a@ == b@,
                (None, None) => true,
                _ => false,
            }),
    {
        match &self.scopes[scope].nodes[node].stored {
            Some(v) => Some(v.duplicate()),
            None => None,
        }
    }

    /// Memoizes a value on the node, returning what was stored before.
    pub fn set_stored(&mut self, scope: usize, node: usize, val: DataValue) -> (r: Option<
        DataValue,
    >)
        requires
            engine_wf(*old(self)),
            scope < old(self).scopes@.len(),
            node < old(self).scopes@[scope as int].nodes@.len(),
        ensures
            engine_wf(*final(self)),
            crate::evaluator::step_frame(*old(self), *final(self)),
            final(self).templates@ == old(self).templates@,
            final(self).mails@ == old(self).mails@,
            final(self).scopes@.len() == old(self).scopes@.len(),
            final(self).scopes@[scope as int].nodes@[node as int].stored matches Some(v)
                && v@ == val@,
            (match (r, old(self).scopes@[scope as int].nodes@[node as int].stored) {
                (Some(a), Some(b)) => a == b,
                (None, None) => true,
                _ => false,
            }),
            forall|i: int| 0 <= i < old(self).scopes@.len() && i != scope
                ==> final(self).scopes@[i] == old(self).scopes@[i],
            forall|k: int| 0 <= k < old(self).scopes@[scope as int].nodes@.len() && k != node
                ==> final(self).scopes@[scope as int].nodes@[k] == old(self).scopes@[
                scope as int].nodes@[k],
            node_same_but_stored(
                final(self).scopes@[scope as int].nodes@[node as int],
                old(self).scopes@[scope as int].nodes@[node as int],
            ),
            scope_same_but_nodes(old(self).scopes@[scope as int], final(self).scopes@[
                scope as int]),
    {
        let ghost pre = self.scopes@;
        let mut incoming = Some(val);
        let slot = &mut self.scopes[scope].nodes[node].stored;
        core::mem::swap(slot, &mut incoming);
        proof {
            let post = self.scopes@;
            assert(post =~= pre.update(scope as int, post[scope as int]));
            assert(post[scope as int].nodes@ =~= pre[scope as int].nodes@.update(
                node as int,
                post[scope as int].nodes@[node as int],
            ));
            assert forall|i: int, k: int| 0 <= i < old(self).scopes@.len() && 0 <= k < old(
                self,
            ).scopes@[i].nodes@.len() implies (#[trigger] final(self).scopes@[i].nodes@[
                k]).outputs == old(self).scopes@[i].nodes@[k].outputs by {
                if i == scope {
                    if k == node {
                    } else {
                        assert(final(self).scopes@[i].nodes@[k] == old(self).scopes@[
                            i].nodes@[k]);
                    }
                } else {
                    assert(final(self).scopes@[i] == old(self).scopes@[i]);
                }
            }
            crate::evaluator::lemma_pending_preserved_slots_eq(*old(self), *final(self));
        }
        incoming
    }

    /// Resolves a local identifier within a scope: the node whose
    /// identifier is the scope-qualified hash of the local one.
    pub fn find_node(&self, scope: usize, local: NodeId) -> (r: Result<usize, EvalError>)
        requires
            scope < self.scopes@.len(),
        ensures
            (match r {
                Ok(k) => k < self.scopes@[scope as int].nodes@.len() && self.scopes@[
                    scope as int].nodes@[k as int].id == NodeId(
                    crate::ids::scoped_of(self.scopes@[scope as int].scope_id, local.0),
                ),
                Err(e) => e matches EvalError::NodeNotFound(_),
            }),
    {
        let scoped = crate::ids::convert_id(self.scopes[scope].scope_id, local);
        match self.find_node_scoped(scope, scoped) {
            Some(k) => Ok(k),
            None => Err(EvalError::NodeNotFound(scoped)),
        }
    }

    /// Finds the node a scoped identifier names, if any.
    pub fn find_node_scoped(&self, scope: usize, id: NodeId) -> (r: Option<usize>)
        requires
            scope < self.scopes@.len(),
        ensures
            (match r {
                Some(k) => k < self.scopes@[scope as int].nodes@.len() && self.scopes@[
                    scope as int].nodes@[k as int].id == id,
                None => forall|k: int| 0 <= k < self.scopes@[scope as int].nodes@.len()
                    ==> (#[trigger] self.scopes@[scope as int].nodes@[k]).id != id,
            }),
    {
        let n = self.scopes[scope].nodes.len();
        let mut k: usize = 0;
        while k < n
            invariant
                scope < self.scopes@.len(),
                n == self.scopes@[scope as int].nodes@.len(),
                k <= n,
                forall|i: int| 0 <= i < k ==> (#[trigger] self.scopes@[scope as int].nodes@[
                    i]).id != id,
            decreases n - k,
        {
            if self.scopes[scope].nodes[k].id == id {
                return Some(k);
            }
            k = k + 1;
        }
        None
    }
}

impl Engine {
    /// Closes the node from outside: the same close broadcast the
    /// lifecycle performs. Every listener pending on any output slot
    /// that has not yet been delivered receives exactly `None`, and
    /// every pending listener ends delivered.
    pub fn close(&mut self, scope: usize, node: usize)
        requires
            engine_wf(*old(self)),
            scope < old(self).scopes@.len(),
            node < old(self).scopes@[scope as int].nodes@.len(),
        ensures
            engine_wf(*final(self)),
            crate::evaluator::step_frame(*old(self), *final(self)),
            final(self).scopes@[scope as int].nodes@[node as int].state == NodeState::Closed,
            forall|p: int, j: int|
                #![trigger old(self).scopes@[scope as int].nodes@[node as int].outputs@[p].pending@[j]]
                0 <= p < old(self).scopes@[scope as int].nodes@[node as int].outputs@.len() && 0
                    <= j < old(self).scopes@[scope as int].nodes@[node as int].outputs@[
                    p].pending@.len() && old(self).mails@[old(self).scopes@[scope as int].nodes@[
                    node as int].outputs@[p].pending@[j] as int] is Empty ==> final(self).mails@[
                    old(self).scopes@[scope as int].nodes@[node as int].outputs@[p].pending@[
                    j] as int] matches Mail::Full(None),
            forall|p: int, j: int|
                #![trigger old(self).scopes@[scope as int].nodes@[node as int].outputs@[p].pending@[j]]
                0 <= p < old(self).scopes@[scope as int].nodes@[node as int].outputs@.len() && 0
                    <= j < old(self).scopes@[scope as int].nodes@[node as int].outputs@[
                    p].pending@.len() && old(self).scopes@[scope as int].nodes@[
                    node as int].outputs@[p].pending@[j] < old(self).mails@.len()
                    ==> !(final(self).mails@[old(self).scopes@[scope as int].nodes@[
                    node as int].outputs@[p].pending@[j] as int] is Empty),
    {
        self.broadcast_closed(scope, node);
    }
}

/// All node fields but the stored value agree.
pub open spec fn node_same_but_stored(
    a: crate::evaluator::ExecutionNode,
    b: crate::evaluator::ExecutionNode,
) -> bool {
    &&& a.id == b.id
    &&& a.inst == b.inst
    &&& a.inputs == b.inputs
    &&& a.outputs == b.outputs
    &&& a.state == b.state
    &&& a.weak == b.weak
}

/// **Exactly one message, never two.** A listener channel starts empty;
/// the drain of its slot with a produced value delivers it `Some(value)`
/// and a close broadcast delivers it `None` — each writes only mailboxes
/// still empty — and from then on every engine step leaves the message in
/// place until the listener's one reader takes it.
pub proof fn lemma_listener_exactly_once(
    before: Seq<Mail>,
    delivered: Seq<Mail>,
    later: Seq<Mail>,
    m: int,
)
    requires
        0 <= m < before.len(),
        before[m] is Empty,
        delivered.len() >= before.len(),
        delivered[m] is Full,
        crate::evaluator::mails_delivery_only(delivered, later),
    ensures
        later[m] == delivered[m] || later[m] is Taken,
{
}

/// **One message per listener.** A listener channel is a single-shot
/// mailbox: `register_listener` creates it empty; a drain
/// (`broadcast_value`) or a close (`broadcast_closed`) writes it at most
/// once — `Some(value)` or `None` — because delivery skips any mailbox
/// already holding a message; and every engine operation relates its
/// mailboxes by `mails_write_once`, so a delivered message can never be
/// replaced by another. Chaining operations keeps that guarantee, which
/// this lemma states.
pub proof fn lemma_write_once_chain(a: Seq<Mail>, b: Seq<Mail>, c: Seq<Mail>)
    requires
        mails_write_once(a, b),
        mails_write_once(b, c),
    ensures
        mails_write_once(a, c),
{
    assert forall|m: int| 0 <= m < a.len() implies ((#[trigger] a[m]) is Full ==> c[m] == a[m])
        && (a[m] is Taken ==> c[m] is Taken) by {
        assert(a[m] is Full ==> b[m] == a[m]);
        assert(a[m] is Taken ==> b[m] is Taken);
    }
}


} // verus!
