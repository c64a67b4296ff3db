//! The evaluator state. An `Engine` owns every loaded sub-graph template,
//! an arena of scopes (each one evaluator: its nodes, registries,
//! variables, caches and parent link), the one-shot mailboxes that
//! listeners wait on, and the modeled outside world: loadable files,
//! console bytes, connectable sockets, scripted agent replies, and the
//! standard output.
//!
//! Parents always precede children in the arena, so every walk up a
//! parent chain terminates.
use vstd::prelude::*;
use crate::agent::AgentState;
use crate::ids::NodeId;
use crate::iobuf::{IoBuffer, iobuf_wf};
use crate::nodes::{Complex, InputEdge};
use crate::value::{DataValue, ValView};

verus! {

/// The lifecycle of one execution node.
#[derive(Clone, Copy, Debug, PartialEq, Eq, Structural)]
pub enum NodeState {
    Processing,
    Waiting,
    Closed,
}

/// One single-shot listener channel: empty until the node it listens to
/// delivers exactly one message, then spent once its reader takes it.
#[derive(Debug)]
pub enum Mail {
    Empty,
    Full(Option<DataValue>),
    Taken,
}

/// One output port's broadcast slot: the mailboxes pending on it.
#[derive(Debug)]
pub struct Slot {
    pub pending: Vec<usize>,
}

/// One execution node: its scoped id, the index of its instance in the
/// scope's template, its scoped input edges, its broadcast slots, its
/// lifecycle state, its per-invocation stored value, and its weak
/// listener cache (one optional mailbox per input edge).
#[derive(Debug)]
pub struct ExecutionNode {
    pub id: NodeId,
    pub inst: usize,
    pub inputs: Vec<InputEdge>,
    pub outputs: Vec<Slot>,
    pub state: NodeState,
    pub stored: Option<DataValue>,
    pub weak: Vec<Option<usize>>,
}

/// One scope: a loaded (template) or instantiated (running) evaluator.
/// The registries, variables and template cache are association lists
/// resolved by their first binding; writes update the first binding in
/// place or append a fresh one, so a name is never bound twice.
#[derive(Debug)]
pub struct Evaluator {
    pub scope_id: u128,
    pub template: usize,
    pub nodes: Vec<ExecutionNode>,
    pub end_node: NodeId,
    pub inputs: Vec<DataValue>,
    pub my_path: String,
    pub closed: bool,
    pub running: bool,
    pub io_registry: Vec<(u128, IoBuffer)>,
    pub agents: Vec<(u128, AgentState)>,
    pub variables: Vec<(String, DataValue)>,
    pub cache: Vec<(String, usize)>,
    pub children: Vec<(u128, usize)>,
    pub dangling: Vec<NodeId>,
    pub parent: Option<usize>,
}

/// The whole runtime: templates, scopes, mailboxes, and the modeled
/// outside world.
#[derive(Debug)]
pub struct Engine {
    pub templates: Vec<Complex>,
    pub scopes: Vec<Evaluator>,
    pub mails: Vec<Mail>,
    pub files: Vec<(String, String)>,
    pub console: IoBuffer,
    pub sockets: Vec<(String, Vec<u8>)>,
    pub agent_replies: Vec<String>,
    pub reply_cursor: usize,
    pub stdout: Vec<char>,
}

/// First value bound to a key in an association list of identifiers;
/// every lookup in the engine reads its list this way.
pub open spec fn id_lookup<V>(m: Seq<(u128, V)>, k: u128) -> Option<V>
    decreases m.len(),
{
    if m.len() == 0 {
        None
    } else if m[0].0 == k {
        Some(m[0].1)
    } else {
        id_lookup(m.drop_first(), k)
    }
}

/// First value bound to a name in an association list of named values.
pub open spec fn name_lookup<V>(m: Seq<(String, V)>, k: Seq<char>) -> Option<V>
    decreases m.len(),
{
    if m.len() == 0 {
        None
    } else if m[0].0@ == k {
        Some(m[0].1)
    } else {
        name_lookup(m.drop_first(), k)
    }
}

/// Whether scope `a` is `s` itself or an ancestor of `s` along parent
/// links.
pub open spec fn in_chain(scopes: Seq<Evaluator>, s: int, a: int) -> bool
    decreases s when 0 <= s < scopes.len() && scopes_parents_wf(scopes)
{
    s == a || (match scopes[s].parent {
        Some(p) => in_chain(scopes, p as int, a),
        None => false,
    })
}

/// Every scope's parent precedes it in the arena.
pub open spec fn scopes_parents_wf(scopes: Seq<Evaluator>) -> bool {
    forall|i: int| 0 <= i < scopes.len() ==> (match (#[trigger] scopes[i]).parent {
        Some(p) => p < i,
        None => true,
    })
}

/// A node is well formed against the mailbox arena when every pending
/// listener and every cached weak listener is a valid mailbox index.
pub open spec fn node_mails_wf(n: ExecutionNode, mails: int) -> bool {
    &&& forall|p: int| 0 <= p < n.outputs@.len() ==> forall|j: int|
        0 <= j < (#[trigger] n.outputs@[p]).pending@.len()
            ==> n.outputs@[p].pending@[j] < mails
    &&& forall|e: int| 0 <= e < n.weak@.len() ==> (match #[trigger] n.weak@[e] {
        Some(m) => m < mails,
        None => true,
    })
}

/// Registry keys stay below a fixed threshold plus the registry's
/// length, so a strictly larger key always exists.
pub open spec fn keys_bounded<V>(m: Seq<(u128, V)>) -> bool {
    forall|j: int| 0 <= j < m.len() ==> (#[trigger] m[j]).0
        < 0x4000_0000_0000_0000_0000_0000_0000_0000 + m.len()
}

/// No scope disappears and no scope's static structure changes: every
/// scope keeps its identifier, template, end node, parent, node count,
/// and every node keeps its identifier, instance index, input edges and
/// output arity. Only the dynamic parts — listener slots, states, stored
/// values, registries, variables, caches — may move.
pub open spec fn scopes_preserve_nodes(a: Seq<Evaluator>, b: Seq<Evaluator>) -> bool {
    &&& b.len() >= a.len()
    &&& forall|i: int| 0 <= i < a.len() ==> (#[trigger] b[i]).nodes@.len() == a[i].nodes@.len()
    &&& forall|i: int| 0 <= i < a.len() ==> (#[trigger] b[i]).scope_id == a[i].scope_id
        && b[i].template == a[i].template && b[i].end_node == a[i].end_node && b[i].parent
        == a[i].parent
    &&& forall|i: int, k: int| 0 <= i < a.len() && 0 <= k < a[i].nodes@.len()
        ==> (#[trigger] b[i].nodes@[k]).id == a[i].nodes@[k].id && b[i].nodes@[k].inst
        == a[i].nodes@[k].inst && b[i].nodes@[k].inputs == a[i].nodes@[k].inputs
        && b[i].nodes@[k].outputs@.len() == a[i].nodes@[k].outputs@.len()
}

/// Engine well-formedness: parents precede children, every scope's
/// template exists, every node's mailbox references are in range, every
/// buffer's cursor is within its input, and registry keys are bounded.
pub open spec fn engine_wf(e: Engine) -> bool {
    &&& scopes_parents_wf(e.scopes@)
    &&& forall|i: int| 0 <= i < e.scopes@.len() ==> (#[trigger] e.scopes@[i]).template
        < e.templates@.len()
    &&& forall|i: int| 0 <= i < e.scopes@.len() ==> forall|k: int|
        0 <= k < (#[trigger] e.scopes@[i]).nodes@.len() ==> node_mails_wf(
            #[trigger] e.scopes@[i].nodes@[k],
            e.mails@.len() as int,
        )
    &&& forall|i: int| 0 <= i < e.scopes@.len() ==> forall|k: int|
        0 <= k < (#[trigger] e.scopes@[i]).io_registry@.len() ==> iobuf_wf(
            (#[trigger] e.scopes@[i].io_registry@[k]).1,
        )
    &&& iobuf_wf(e.console)
    &&& forall|i: int| 0 <= i < e.scopes@.len() ==> keys_bounded(
        (#[trigger] e.scopes@[i]).io_registry@,
    )
    &&& forall|i: int| 0 <= i < e.scopes@.len() ==> keys_bounded((#[trigger] e.scopes@[i]).agents@)
}

impl Engine {
    /// A fresh engine over the given outside world: loadable files,
    /// console bytes, connectable sockets, and scripted agent replies.
    pub fn create(
        files: Vec<(String, String)>,
        console: Vec<u8>,
        sockets: Vec<(String, Vec<u8>)>,
        agent_replies: Vec<String>,
    ) -> (r: Engine)
        ensures
            engine_wf(r),
            r.scopes@.len() == 0,
            r.files@ == files@,
    {
        Engine {
            templates: Vec::new(),
            scopes: Vec::new(),
            mails: Vec::new(),
            files,
            console: IoBuffer::over(console),
            sockets,
            agent_replies,
            reply_cursor: 0,
            stdout: Vec::new(),
        }
    }

    /// Sets the closed flag of a scope and changes nothing else. Running
    /// it twice leaves exactly the state one run leaves: the flag is
    /// simply true afterwards.
    pub fn shutdown(&mut self, scope: usize)
        requires
            engine_wf(*old(self)),
            scope < old(self).scopes@.len(),
        ensures
            engine_wf(*final(self)),
            step_frame(*old(self), *final(self)),
            final(self).scopes@.len() == old(self).scopes@.len(),
            final(self).scopes@[scope as int].closed,
            forall|i: int| 0 <= i < old(self).scopes@.len() && i != scope
                ==> final(self).scopes@[i] == old(self).scopes@[i],
            scope_fields_except_closed(
                final(self).scopes@[scope as int],
                old(self).scopes@[scope as int],
            ),
            final(self).templates@ == old(self).templates@,
            final(self).mails@ == old(self).mails@,
            old(self).scopes@[scope as int].closed ==> final(self).scopes@
                == old(self).scopes@,
            final(self).console == old(self).console,
            final(self).stdout@ == old(self).stdout@,
            final(self).reply_cursor == old(self).reply_cursor,
    {
        let ghost pre = self.scopes@;
        let s = &mut self.scopes[scope];
        if !s.closed {
            s.closed = true;
        }
        proof {
            assert(final(self).scopes@ =~= pre.update(
                scope as int,
                final(self).scopes@[scope as int],
            ));
            if pre[scope as int].closed {
                assert(final(self).scopes@ =~= pre);
            }
        }
    }

    /// Whether the scope has been shut down.
    pub fn is_closed(&self, scope: usize) -> (r: bool)
        requires
            scope < self.scopes@.len(),
        ensures
            r == self.scopes@[scope as int].closed,
    {
        self.scopes[scope].closed
    }

    /// The inputs delivered to a scope, copied out.
    pub fn get_inputs(&self, scope: usize) -> (r: Vec<DataValue>)
        requires
            scope < self.scopes@.len(),
        ensures
            views_of_values(r@) == views_of_values(self.scopes@[scope as int].inputs@),
    {
        let mut out: Vec<DataValue> = Vec::new();
        let n = self.scopes[scope].inputs.len();
        let mut i: usize = 0;
        while i < n
            invariant
                scope < self.scopes@.len(),
                n == self.scopes@[scope as int].inputs@.len(),
                i <= n,
                out@.len() == i,
                forall|j: int| 0 <= j < i ==> (#[trigger] out@[j])@
                    == self.scopes@[scope as int].inputs@[j]@,
            decreases n - i,
        {
            out.push(self.scopes[scope].inputs[i].duplicate());
            i = i + 1;
        }
        proof {
            lemma_views_of_values(out@);
            lemma_views_of_values(self.scopes@[scope as int].inputs@);
            let ins = self.scopes@[scope as int].inputs@;
            assert forall|j: int| 0 <= j < out@.len() implies views_of_values(out@)[j]
                == views_of_values(ins)[j] by {
                assert(out@[j]@ == ins[j]@);
            }
            assert(views_of_values(out@) =~= views_of_values(ins));
        }
        out
    }
}

/// All fields but the closed flag agree.
pub open spec fn scope_fields_except_closed(a: Evaluator, b: Evaluator) -> bool {
    &&& a.scope_id == b.scope_id
    &&& a.template == b.template
    &&& a.nodes == b.nodes
    &&& a.end_node == b.end_node
    &&& a.inputs == b.inputs
    &&& a.my_path == b.my_path
    &&& a.running == b.running
    &&& a.io_registry == b.io_registry
    &&& a.agents == b.agents
    &&& a.variables == b.variables
    &&& a.cache == b.cache
    &&& a.children == b.children
    &&& a.dangling == b.dangling
    &&& a.parent == b.parent
}

/// The shapes of a sequence of values.
pub open spec fn views_of_values(s: Seq<DataValue>) -> Seq<ValView>
    decreases s,
{
    crate::value::views_of_seq(s)
}

/// `views_of_values` maps the sequence pointwise.
pub proof fn lemma_views_of_values(s: Seq<DataValue>)
    ensures
        views_of_values(s).len() == s.len(),
        forall|i: int| 0 <= i < s.len() ==> views_of_values(s)[i] == (#[trigger] s[i])@,
{
    crate::value::lemma_views_of_seq(s);
}

/// **Idempotent shutdown.** Shutting a scope down is a pure flag write:
/// from a state in which the flag is already set — in particular, right
/// after a first shutdown — a second shutdown changes nothing, so two
/// shutdowns have exactly the observable effect of one.
pub proof fn lemma_shutdown_idempotent(before: Evaluator, after_once: Evaluator)
    requires
        after_once.closed,
        scope_fields_except_closed(after_once, before),
    ensures
        forall|after_twice: Evaluator| after_twice.closed && scope_fields_except_closed(
            after_twice,
            after_once,
        ) ==> after_twice == after_once,
{
    assert forall|after_twice: Evaluator| after_twice.closed && scope_fields_except_closed(
        after_twice,
        after_once,
    ) implies after_twice == after_once by {
    }
}

/// A mail sequence evolves by delivery and consumption alone: an
/// undelivered mailbox may be written once, a delivered message stays
/// until its one reader takes it, and a taken mailbox stays taken.
pub open spec fn mails_delivery_only(a: Seq<Mail>, b: Seq<Mail>) -> bool {
    &&& b.len() >= a.len()
    &&& forall|m: int| 0 <= m < a.len() ==> ((#[trigger] a[m]) is Full ==> (b[m] == a[m] || b[m]
        is Taken))
    &&& forall|m: int| 0 <= m < a.len() ==> ((#[trigger] a[m]) is Taken ==> b[m] is Taken)
}

/// A listener that was pending on a slot is either still pending there
/// or has been delivered its message (which its reader may have taken).
pub open spec fn pending_or_delivered(b: Engine, i: int, k: int, p: int, m: usize) -> bool {
    ||| exists|j2: int| 0 <= j2 < b.scopes@[i].nodes@[k].outputs@[p].pending@.len()
        && b.scopes@[i].nodes@[k].outputs@[p].pending@[j2] == m
    ||| b.mails@[m as int] is Full
    ||| b.mails@[m as int] is Taken
}

/// The frame every interpreter step preserves: the engine stays well
/// formed, the given outside world (files, sockets, vendor replies) is
/// read-only, templates only grow and keep their entries, scopes only
/// grow and keep their static structure, mailboxes evolve by delivery
/// and consumption alone, and no pending listener is ever dropped: it
/// stays pending or has been delivered.
pub open spec fn step_frame(a: Engine, b: Engine) -> bool {
    &&& engine_wf(b)
    &&& b.files@ == a.files@
    &&& b.sockets@ == a.sockets@
    &&& b.agent_replies@ == a.agent_replies@
    &&& b.scopes@.len() >= a.scopes@.len()
    &&& b.templates@.len() >= a.templates@.len()
    &&& forall|t: int| 0 <= t < a.templates@.len() ==> (#[trigger] b.templates@[t])
        == a.templates@[t]
    &&& scopes_preserve_nodes(a.scopes@, b.scopes@)
    &&& mails_delivery_only(a.mails@, b.mails@)
    &&& forall|i: int, k: int, p: int, j: int|
        #![trigger a.scopes@[i].nodes@[k].outputs@[p].pending@[j]]
        0 <= i < a.scopes@.len() && 0 <= k < a.scopes@[i].nodes@.len() && 0 <= p < a.scopes@[
            i].nodes@[k].outputs@.len() && 0 <= j < a.scopes@[i].nodes@[k].outputs@[
            p].pending@.len() && a.scopes@[i].nodes@[k].outputs@[p].pending@[j]
            < a.mails@.len() ==> pending_or_delivered(
            b,
            i,
            k,
            p,
            a.scopes@[i].nodes@[k].outputs@[p].pending@[j],
        )
}

/// An operation that leaves every existing node's output slots exactly
/// as they were keeps every pending listener pending.
pub proof fn lemma_pending_preserved_slots_eq(a: Engine, b: Engine)
    requires
        b.scopes@.len() >= a.scopes@.len(),
        forall|i: int| 0 <= i < a.scopes@.len() ==> (#[trigger] b.scopes@[i]).nodes@.len()
            == a.scopes@[i].nodes@.len(),
        forall|i: int, k: int| 0 <= i < a.scopes@.len() && 0 <= k < a.scopes@[i].nodes@.len()
            ==> (#[trigger] b.scopes@[i].nodes@[k]).outputs == a.scopes@[i].nodes@[k].outputs,
    ensures
        forall|i: int, k: int, p: int, j: int|
            #![trigger a.scopes@[i].nodes@[k].outputs@[p].pending@[j]]
            0 <= i < a.scopes@.len() && 0 <= k < a.scopes@[i].nodes@.len() && 0 <= p
                < a.scopes@[i].nodes@[k].outputs@.len() && 0 <= j < a.scopes@[i].nodes@[
                k].outputs@[p].pending@.len() && a.scopes@[i].nodes@[k].outputs@[p].pending@[j]
                < a.mails@.len() ==> pending_or_delivered(
                b,
                i,
                k,
                p,
                a.scopes@[i].nodes@[k].outputs@[p].pending@[j],
            ),
{
    assert forall|i: int, k: int, p: int, j: int|
        #![trigger a.scopes@[i].nodes@[k].outputs@[p].pending@[j]]
        0 <= i < a.scopes@.len() && 0 <= k < a.scopes@[i].nodes@.len() && 0 <= p < a.scopes@[
            i].nodes@[k].outputs@.len() && 0 <= j < a.scopes@[i].nodes@[k].outputs@[
            p].pending@.len() && a.scopes@[i].nodes@[k].outputs@[p].pending@[j]
            < a.mails@.len() implies pending_or_delivered(
        b,
        i,
        k,
        p,
        a.scopes@[i].nodes@[k].outputs@[p].pending@[j],
    ) by {
        assert(b.scopes@[i].nodes@[k].outputs == a.scopes@[i].nodes@[k].outputs);
        assert(b.scopes@[i].nodes@[k].outputs@[p].pending@[j] == a.scopes@[i].nodes@[
            k].outputs@[p].pending@[j]);
    }
}

/// Listeners pending at a step's start are delivered by a broadcast at
/// its end: if every listener pending on the node's first `plimit`
/// ports just before the broadcast ends up delivered, then so does
/// every listener that was pending there at the start of the step — the
/// step kept each one pending, or had already delivered it.
pub proof fn lemma_entry_listeners_delivered(
    a: Engine,
    mid: Engine,
    b: Engine,
    s: int,
    n: int,
    plimit: int,
)
    requires
        0 <= s < a.scopes@.len(),
        0 <= n < a.scopes@[s].nodes@.len(),
        step_frame(a, mid),
        mails_delivery_only(mid.mails@, b.mails@),
        forall|p: int, j: int|
            #![trigger mid.scopes@[s].nodes@[n].outputs@[p].pending@[j]]
            0 <= p < mid.scopes@[s].nodes@[n].outputs@.len() && p < plimit && 0 <= j
                < mid.scopes@[s].nodes@[n].outputs@[p].pending@.len() && mid.scopes@[
                s].nodes@[n].outputs@[p].pending@[j] < mid.mails@.len()
                ==> !(b.mails@[mid.scopes@[s].nodes@[n].outputs@[p].pending@[j] as int]
                is Empty),
    ensures
        forall|p: int, j: int|
            #![trigger a.scopes@[s].nodes@[n].outputs@[p].pending@[j]]
            0 <= p < a.scopes@[s].nodes@[n].outputs@.len() && p < plimit && 0 <= j
                < a.scopes@[s].nodes@[n].outputs@[p].pending@.len() && a.scopes@[s].nodes@[
                n].outputs@[p].pending@[j] < a.mails@.len()
                ==> !(b.mails@[a.scopes@[s].nodes@[n].outputs@[p].pending@[j] as int]
                is Empty),
{
    assert forall|p: int, j: int|
        #![trigger a.scopes@[s].nodes@[n].outputs@[p].pending@[j]]
        0 <= p < a.scopes@[s].nodes@[n].outputs@.len() && p < plimit && 0 <= j < a.scopes@[
            s].nodes@[n].outputs@[p].pending@.len() && a.scopes@[s].nodes@[n].outputs@[
            p].pending@[j] < a.mails@.len() implies !(b.mails@[a.scopes@[s].nodes@[
            n].outputs@[p].pending@[j] as int] is Empty) by {
        let m = a.scopes@[s].nodes@[n].outputs@[p].pending@[j];
        assert(pending_or_delivered(mid, s, n, p, m));
        if exists|j2: int| 0 <= j2 < mid.scopes@[s].nodes@[n].outputs@[p].pending@.len()
            && mid.scopes@[s].nodes@[n].outputs@[p].pending@[j2] == m {
            let j2 = choose|j2: int| 0 <= j2 < mid.scopes@[s].nodes@[n].outputs@[
                p].pending@.len() && mid.scopes@[s].nodes@[n].outputs@[p].pending@[j2] == m;
            assert(mid.scopes@[s].nodes@[n].outputs@.len() == a.scopes@[s].nodes@[
                n].outputs@.len());
            assert(mid.scopes@[s].nodes@[n].outputs@[p].pending@[j2] == m);
            assert(m < mid.mails@.len());
            assert(!(b.mails@[m as int] is Empty));
        } else {
            assert(mid.mails@[m as int] is Full || mid.mails@[m as int] is Taken);
            assert(!(b.mails@[m as int] is Empty));
        }
    }
}

/// A well-formed engine steps to itself.
pub proof fn lemma_step_frame_refl(a: Engine)
    requires
        engine_wf(a),
    ensures
        step_frame(a, a),
{
    lemma_pending_preserved_slots_eq(a, a);
}

/// Stepping twice preserves the frame: the step relation composes.
pub broadcast proof fn lemma_step_frame_trans(a: Engine, b: Engine, c: Engine)
    ensures
        #![trigger step_frame(a, b), step_frame(b, c)]
        step_frame(a, b) && step_frame(b, c) ==> step_frame(a, c),
{
    if step_frame(a, b) && step_frame(b, c) {
        assert forall|i: int| 0 <= i < a.scopes@.len() implies (#[trigger] c.scopes@[
            i]).nodes@.len() == a.scopes@[i].nodes@.len() && c.scopes@[i].scope_id
            == a.scopes@[i].scope_id && c.scopes@[i].template == a.scopes@[i].template
            && c.scopes@[i].end_node == a.scopes@[i].end_node && c.scopes@[i].parent
            == a.scopes@[i].parent by {
            assert(b.scopes@[i].nodes@.len() == a.scopes@[i].nodes@.len());
            assert(b.scopes@[i].scope_id == a.scopes@[i].scope_id);
            assert(b.scopes@[i].template == a.scopes@[i].template);
            assert(b.scopes@[i].end_node == a.scopes@[i].end_node);
            assert(b.scopes@[i].parent == a.scopes@[i].parent);
        }
        assert forall|i: int, k: int| 0 <= i < a.scopes@.len() && 0 <= k < a.scopes@[
            i].nodes@.len() implies (#[trigger] c.scopes@[i].nodes@[k]).id == a.scopes@[
            i].nodes@[k].id && c.scopes@[i].nodes@[k].inst == a.scopes@[i].nodes@[k].inst
            && c.scopes@[i].nodes@[k].inputs == a.scopes@[i].nodes@[k].inputs && c.scopes@[
            i].nodes@[k].outputs@.len() == a.scopes@[i].nodes@[k].outputs@.len() by {
            assert(b.scopes@[i].nodes@.len() == a.scopes@[i].nodes@.len());
            assert((#[trigger] b.scopes@[i].nodes@[k]).id == a.scopes@[i].nodes@[k].id);
        }
        assert forall|t: int| 0 <= t < a.templates@.len() implies (#[trigger] c.templates@[t])
            == a.templates@[t] by {
            assert(b.templates@[t] == a.templates@[t]);
        }
        assert forall|i: int, k: int, p: int, j: int|
            #![trigger a.scopes@[i].nodes@[k].outputs@[p].pending@[j]]
            0 <= i < a.scopes@.len() && 0 <= k < a.scopes@[i].nodes@.len() && 0 <= p
                < a.scopes@[i].nodes@[k].outputs@.len() && 0 <= j < a.scopes@[i].nodes@[
                k].outputs@[p].pending@.len() && a.scopes@[i].nodes@[k].outputs@[p].pending@[j]
                < a.mails@.len() implies pending_or_delivered(
            c,
            i,
            k,
            p,
            a.scopes@[i].nodes@[k].outputs@[p].pending@[j],
        ) by {
            let m = a.scopes@[i].nodes@[k].outputs@[p].pending@[j];
            assert(pending_or_delivered(b, i, k, p, m));
            if exists|j2: int| 0 <= j2 < b.scopes@[i].nodes@[k].outputs@[p].pending@.len()
                && b.scopes@[i].nodes@[k].outputs@[p].pending@[j2] == m {
                let j2 = choose|j2: int| 0 <= j2 < b.scopes@[i].nodes@[k].outputs@[
                    p].pending@.len() && b.scopes@[i].nodes@[k].outputs@[p].pending@[j2] == m;
                assert(b.scopes@[i].nodes@.len() == a.scopes@[i].nodes@.len());
                assert(b.scopes@[i].nodes@[k].outputs@.len() == a.scopes@[i].nodes@[
                    k].outputs@.len());
                assert(b.scopes@[i].nodes@[k].outputs@[p].pending@[j2] == m);
                assert(pending_or_delivered(c, i, k, p, m));
            } else {
                assert(b.mails@[m as int] is Full || b.mails@[m as int] is Taken);
                assert(m < b.mails@.len());
                assert(c.mails@[m as int] is Full || c.mails@[m as int] is Taken);
            }
        }
        assert forall|m: int| 0 <= m < a.mails@.len() implies ((#[trigger] a.mails@[m]) is Full
            ==> (c.mails@[m] == a.mails@[m] || c.mails@[m] is Taken)) && (a.mails@[m] is Taken
            ==> c.mails@[m] is Taken) by {
            assert(a.mails@[m] is Full ==> (b.mails@[m] == a.mails@[m] || b.mails@[m]
                is Taken));
            assert(a.mails@[m] is Taken ==> b.mails@[m] is Taken);
        }
    }
}


} // verus!
