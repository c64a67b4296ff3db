//! Building scopes from sub-graph templates. Every local identifier of
//! the template is rehashed into the scope, so the node map is keyed by
//! scope-qualified identifiers; the dangling set records nodes no edge
//! uses as a source, which the output drain force-triggers.
use vstd::prelude::*;
use crate::evaluator::{Engine, ExecutionNode, NodeState, Evaluator, Slot, engine_wf};
use crate::ids::{NodeId, convert_id, scoped_of};
use crate::nodes::{Complex, InputEdge};
use crate::value::DataValue;

verus! {

/// Whether an edge list names a local id as a source.
pub open spec fn edges_name_src(edges: Seq<InputEdge>, id: NodeId) -> bool {
    exists|e: int| 0 <= e < edges.len() && (#[trigger] edges[e]).src == id
}

/// Whether any instance of the template uses the local id as a source.
pub open spec fn template_names_src(c: Complex, id: NodeId) -> bool {
    exists|k: int| 0 <= k < c.instances@.len() && edges_name_src(
        (#[trigger] c.instances@[k]).1.inputs@,
        id,
    )
}

/// Every edge source of the template is one of its instance keys.
pub open spec fn complex_closed(c: Complex) -> bool {
    forall|k: int, e: int| 0 <= k < c.instances@.len() && 0 <= e
        < c.instances@[k].1.inputs@.len() ==> (exists|k2: int| 0 <= k2 < c.instances@.len()
        && (#[trigger] c.instances@[k2]).0 == (#[trigger] c.instances@[k].1.inputs@[e]).src)
}

/// A freshly built or reset node: waiting, nothing stored, one empty
/// broadcast slot per declared output, and one empty weak-listener cache
/// entry per input edge.
pub open spec fn nodes_reset(nodes: Seq<ExecutionNode>, c: Complex) -> bool {
    &&& forall|k: int| 0 <= k < nodes.len() ==> (#[trigger] nodes[k]).state
        == NodeState::Waiting && nodes[k].stored is None
    &&& forall|k: int| 0 <= k < nodes.len() && k < c.instances@.len()
        ==> (#[trigger] nodes[k]).outputs@.len() == c.instances@[k].1.outputs@.len()
    &&& forall|k: int, p: int| 0 <= k < nodes.len() && 0 <= p < nodes[k].outputs@.len()
        ==> (#[trigger] nodes[k].outputs@[p]).pending@.len() == 0
    &&& forall|k: int| 0 <= k < nodes.len() ==> (#[trigger] nodes[k]).weak@.len() == nodes[
        k].inputs@.len()
    &&& forall|k: int, e: int| 0 <= k < nodes.len() && 0 <= e < nodes[k].weak@.len()
        ==> (#[trigger] nodes[k].weak@[e]) is None
}

/// The nodes of a built scope mirror the template's instances: node `k`
/// carries the scope-qualified hash of instance key `k`, points at
/// instance `k`, and its edges carry the scope-qualified hashes of the
/// template's edge sources.
pub open spec fn nodes_match_template(nodes: Seq<ExecutionNode>, c: Complex, sid: u128) -> bool {
    &&& nodes.len() == c.instances@.len()
    &&& forall|k: int| 0 <= k < nodes.len() ==> (#[trigger] nodes[k]).id == NodeId(
        scoped_of(sid, c.instances@[k].0.0),
    )
    &&& forall|k: int| 0 <= k < nodes.len() ==> (#[trigger] nodes[k]).inst == k
    &&& forall|k: int| 0 <= k < nodes.len() ==> (#[trigger] nodes[k]).inputs@.len()
        == c.instances@[k].1.inputs@.len()
    &&& forall|k: int, e: int| 0 <= k < nodes.len() && 0 <= e < nodes[k].inputs@.len()
        ==> (#[trigger] nodes[k].inputs@[e]) == (InputEdge {
        src: NodeId(scoped_of(sid, c.instances@[k].1.inputs@[e].src.0)),
        ..c.instances@[k].1.inputs@[e]
    })
}

/// All scope fields but the delivered inputs agree.
pub open spec fn scope_same_but_inputs(a: Evaluator, b: Evaluator) -> bool {
    &&& a.scope_id == b.scope_id
    &&& a.template == b.template
    &&& a.nodes == b.nodes
    &&& a.end_node == b.end_node
    &&& a.my_path == b.my_path
    &&& a.closed == b.closed
    &&& a.running == b.running
    &&& a.io_registry == b.io_registry
    &&& a.agents == b.agents
    &&& a.variables == b.variables
    &&& a.cache == b.cache
    &&& a.children == b.children
    &&& a.dangling == b.dangling
    &&& a.parent == b.parent
}

impl Engine {
    /// Registers a parsed sub-graph template and hands back its index.
    pub fn add_template(&mut self, c: Complex) -> (t: usize)
        requires
            engine_wf(*old(self)),
        ensures
            engine_wf(*final(self)),
            crate::evaluator::step_frame(*old(self), *final(self)),
            final(self).templates@.len() == old(self).templates@.len() + 1,
            t == old(self).templates@.len(),
            final(self).templates@[t as int] == c,
            forall|i: int| 0 <= i < old(self).templates@.len() ==> final(self).templates@[i]
                == old(self).templates@[i],
            final(self).scopes@ == old(self).scopes@,
            final(self).mails@ == old(self).mails@,
    {
        let t = self.templates.len();
        self.templates.push(c);
        t
    }

    /// Builds the execution nodes of one scope from a template: every
    /// local identifier — the node map keys and every edge source — is
    /// rehashed as the scope-qualified hash, and the dangling set
    /// collects the nodes no edge names as a source.
    #[verifier::loop_isolation(false)]
    pub fn build_scope(
        &mut self,
        tpl: usize,
        parent: Option<usize>,
        scope_id: u128,
        my_path: String,
        running: bool,
    ) -> (s: usize)
        requires
            engine_wf(*old(self)),
            tpl < old(self).templates@.len(),
            (parent matches Some(p) ==> p < old(self).scopes@.len()),
        ensures
            engine_wf(*final(self)),
            crate::evaluator::step_frame(*old(self), *final(self)),
            final(self).templates@ == old(self).templates@,
            final(self).mails@ == old(self).mails@,
            final(self).scopes@.len() == old(self).scopes@.len() + 1,
            s == old(self).scopes@.len(),
            forall|i: int| 0 <= i < old(self).scopes@.len() ==> final(self).scopes@[i]
                == old(self).scopes@[i],
            final(self).scopes@[s as int].scope_id == scope_id,
            final(self).scopes@[s as int].template == tpl,
            final(self).scopes@[s as int].parent == parent,
            final(self).scopes@[s as int].closed == false,
            final(self).scopes@[s as int].running == running,
            final(self).scopes@[s as int].end_node == NodeId(
                scoped_of(scope_id, old(self).templates@[tpl as int].end_node.0),
            ),
            nodes_match_template(
                final(self).scopes@[s as int].nodes@,
                old(self).templates@[tpl as int],
                scope_id,
            ),
            forall|k: int| 0 <= k < final(self).scopes@[s as int].nodes@.len()
                ==> (#[trigger] final(self).scopes@[s as int].nodes@[k]).state
                == NodeState::Waiting && final(self).scopes@[s as int].nodes@[k].stored is None,
            nodes_reset(final(self).scopes@[s as int].nodes@, old(self).templates@[tpl as int]),
            final(self).scopes@[s as int].io_registry@.len() == 0,
            final(self).scopes@[s as int].agents@.len() == 0,
            final(self).scopes@[s as int].variables@.len() == 0,
            final(self).scopes@[s as int].children@.len() == 0,
            final(self).scopes@[s as int].inputs@.len() == 0,
    {
        let s = self.scopes.len();
        let ghost c = self.templates@[tpl as int];
        let n = self.templates[tpl].instances.len();
        let mut nodes: Vec<ExecutionNode> = Vec::new();
        let mut k: usize = 0;
        while k < n
            invariant
                tpl < self.templates@.len(),
                *self == *old(self),
                c == self.templates@[tpl as int],
                n == c.instances@.len(),
                k <= n,
                nodes@.len() == k,
                forall|j: int| 0 <= j < k ==> (#[trigger] nodes@[j]).id == NodeId(
                    scoped_of(scope_id, c.instances@[j].0.0),
                ),
                forall|j: int| 0 <= j < k ==> (#[trigger] nodes@[j]).inst == j,
                forall|j: int| 0 <= j < k ==> (#[trigger] nodes@[j]).inputs@.len()
                    == c.instances@[j].1.inputs@.len(),
                forall|j: int, e: int| 0 <= j < k && 0 <= e < nodes@[j].inputs@.len()
                    ==> (#[trigger] nodes@[j].inputs@[e]) == (InputEdge {
                    src: NodeId(scoped_of(scope_id, c.instances@[j].1.inputs@[e].src.0)),
                    ..c.instances@[j].1.inputs@[e]
                }),
                forall|j: int| 0 <= j < k ==> (#[trigger] nodes@[j]).state == NodeState::Waiting
                    && nodes@[j].stored is None,
                forall|j: int| 0 <= j < k ==> (#[trigger] nodes@[j]).outputs@.len()
                    == c.instances@[j].1.outputs@.len() && (forall|p: int| 0 <= p < nodes@[
                    j].outputs@.len() ==> (#[trigger] nodes@[j].outputs@[p]).pending@.len()
                    == 0),
                forall|j: int| 0 <= j < k ==> (#[trigger] nodes@[j]).weak@.len() == nodes@[
                    j].inputs@.len() && (forall|e: int| 0 <= e < nodes@[j].weak@.len()
                    ==> (#[trigger] nodes@[j].weak@[e]) is None),
            decreases n - k,
        {
            let scoped = convert_id(scope_id, self.templates[tpl].instances[k].0);
            let ne = self.templates[tpl].instances[k].1.inputs.len();
            let mut edges: Vec<InputEdge> = Vec::new();
            let mut weak: Vec<Option<usize>> = Vec::new();
            let mut e: usize = 0;
            while e < ne
                invariant
                    tpl < self.templates@.len(),
                    *self == *old(self),
                    c == self.templates@[tpl as int],
                    k < c.instances@.len(),
                    ne == c.instances@[k as int].1.inputs@.len(),
                    e <= ne,
                    edges@.len() == e,
                    weak@.len() == e,
                    forall|x: int| 0 <= x < e ==> (#[trigger] edges@[x]) == (InputEdge {
                        src: NodeId(
                            scoped_of(scope_id, c.instances@[k as int].1.inputs@[x].src.0),
                        ),
                        ..c.instances@[k as int].1.inputs@[x]
                    }),
                    forall|x: int| 0 <= x < e ==> (#[trigger] weak@[x]) is None,
                decreases ne - e,
            {
                let orig_edge = self.templates[tpl].instances[k].1.inputs[e];
                let scoped_src = convert_id(scope_id, orig_edge.src);
                edges.push(
                    InputEdge {
                        ty: orig_edge.ty,
                        src: scoped_src,
                        port: orig_edge.port,
                        strong: orig_edge.strong,
                    },
                );
                weak.push(Option::None);
                e = e + 1;
            }
            let np = self.templates[tpl].instances[k].1.outputs.len();
            let mut slots: Vec<Slot> = Vec::new();
            let mut p: usize = 0;
            while p < np
                invariant
                    p <= np,
                    slots@.len() == p,
                    forall|x: int| 0 <= x < p ==> (#[trigger] slots@[x]).pending@.len() == 0,
                decreases np - p,
            {
                slots.push(Slot { pending: Vec::new() });
                p = p + 1;
            }
            nodes.push(
                ExecutionNode {
                    id: scoped,
                    inst: k,
                    inputs: edges,
                    outputs: slots,
                    state: NodeState::Waiting,
                    stored: Option::None,
                    weak,
                },
            );
            k = k + 1;
        }
        let mut dangling: Vec<NodeId> = Vec::new();
        let mut k2: usize = 0;
        while k2 < n
            invariant
                tpl < self.templates@.len(),
                *self == *old(self),
                c == self.templates@[tpl as int],
                n == c.instances@.len(),
                k2 <= n,
            decreases n - k2,
        {
            let local = self.templates[tpl].instances[k2].0;
            let mut used = false;
            let mut j: usize = 0;
            while j < n
                invariant
                    tpl < self.templates@.len(),
                    *self == *old(self),
                    c == self.templates@[tpl as int],
                    n == c.instances@.len(),
                    j <= n,
                    k2 < n,
                decreases n - j,
            {
                let m = self.templates[tpl].instances[j].1.inputs.len();
                let mut x: usize = 0;
                while x < m
                    invariant
                        tpl < self.templates@.len(),
                        *self == *old(self),
                        c == self.templates@[tpl as int],
                        j < c.instances@.len(),
                        m == c.instances@[j as int].1.inputs@.len(),
                        x <= m,
                        k2 < c.instances@.len(),
                    decreases m - x,
                {
                    if self.templates[tpl].instances[j].1.inputs[x].src == local {
                        used = true;
                    }
                    x = x + 1;
                }
                j = j + 1;
            }
            if !used {
                dangling.push(convert_id(scope_id, local));
            }
            k2 = k2 + 1;
        }
        let end_local = self.templates[tpl].end_node;
        let end_scoped = convert_id(scope_id, end_local);
        let scope = Evaluator {
            scope_id,
            template: tpl,
            nodes,
            end_node: end_scoped,
            inputs: Vec::new(),
            my_path,
            closed: false,
            running,
            io_registry: Vec::new(),
            agents: Vec::new(),
            variables: Vec::new(),
            cache: Vec::new(),
            children: Vec::new(),
            dangling,
            parent,
        };
        self.scopes.push(scope);
        s
    }

    /// The dangling set of a scope, copied out: the nodes that must be
    /// force-triggered because no edge pulls on them.
    pub fn dangling_of(&self, scope: usize) -> (r: Vec<NodeId>)
        requires
            scope < self.scopes@.len(),
        ensures
            r@ == self.scopes@[scope as int].dangling@,
    {
        let n = self.scopes[scope].dangling.len();
        let mut out: Vec<NodeId> = Vec::new();
        let mut i: usize = 0;
        while i < n
            invariant
                scope < self.scopes@.len(),
                n == self.scopes@[scope as int].dangling@.len(),
                i <= n,
                out@ == self.scopes@[scope as int].dangling@.take(i as int),
            decreases n - i,
        {
            out.push(self.scopes[scope].dangling[i]);
            proof {
                assert(out@ =~= self.scopes@[scope as int].dangling@.take(i + 1));
            }
            i = i + 1;
        }
        proof {
            assert(self.scopes@[scope as int].dangling@.take(n as int) =~= self.scopes@[
                scope as int].dangling@);
        }
        out
    }

    /// Delivers the caller's inputs to a scope.
    pub fn set_inputs(&mut self, scope: usize, inputs: Vec<DataValue>)
        requires
            engine_wf(*old(self)),
            scope < old(self).scopes@.len(),
        ensures
            engine_wf(*final(self)),
            crate::evaluator::step_frame(*old(self), *final(self)),
            final(self).templates@ == old(self).templates@,
            final(self).mails@ == old(self).mails@,
            final(self).scopes@.len() == old(self).scopes@.len(),
            final(self).scopes@[scope as int].inputs@ == inputs@,
            forall|i: int| 0 <= i < old(self).scopes@.len() && i != scope
                ==> final(self).scopes@[i] == old(self).scopes@[i],
            scope_same_but_inputs(final(self).scopes@[scope as int], old(self).scopes@[
                scope as int]),
    {
        let ghost pre = self.scopes@;
        self.scopes[scope].inputs = inputs;
        proof {
            let post = self.scopes@;
            assert(post =~= pre.update(scope as int, post[scope as int]));
        }
    }

    /// Produces a running instance of a template scope: the same template
    /// under the same scope identifier and parent, with fresh nodes, the
    /// caller's inputs, a copy of the template cache, and everything
    /// else reset.
    #[verifier::loop_isolation(false)]
    pub fn instantiate(&mut self, template_scope: usize, inputs: Vec<DataValue>) -> (s: usize)
        requires
            engine_wf(*old(self)),
            template_scope < old(self).scopes@.len(),
        ensures
            engine_wf(*final(self)),
            crate::evaluator::step_frame(*old(self), *final(self)),
            final(self).templates@ == old(self).templates@,
            final(self).mails@ == old(self).mails@,
            final(self).scopes@.len() == old(self).scopes@.len() + 1,
            s == old(self).scopes@.len(),
            forall|i: int| 0 <= i < old(self).scopes@.len() ==> final(self).scopes@[i]
                == old(self).scopes@[i],
            final(self).scopes@[s as int].scope_id == old(self).scopes@[
                template_scope as int].scope_id,
            final(self).scopes@[s as int].template == old(self).scopes@[
                template_scope as int].template,
            final(self).scopes@[s as int].parent == old(self).scopes@[
                template_scope as int].parent,
            final(self).scopes@[s as int].closed == false,
            final(self).scopes@[s as int].running == true,
            final(self).scopes@[s as int].inputs@ == inputs@,
            final(self).scopes@[s as int].end_node == NodeId(
                scoped_of(
                    old(self).scopes@[template_scope as int].scope_id,
                    old(self).templates@[
                        old(self).scopes@[template_scope as int].template as int].end_node.0,
                ),
            ),
            nodes_match_template(
                final(self).scopes@[s as int].nodes@,
                old(self).templates@[old(self).scopes@[template_scope as int].template as int],
                old(self).scopes@[template_scope as int].scope_id,
            ),
            forall|k: int| 0 <= k < final(self).scopes@[s as int].nodes@.len()
                ==> (#[trigger] final(self).scopes@[s as int].nodes@[k]).state
                == NodeState::Waiting && final(self).scopes@[s as int].nodes@[k].stored is None,
            nodes_reset(
                final(self).scopes@[s as int].nodes@,
                old(self).templates@[old(self).scopes@[template_scope as int].template as int],
            ),
            final(self).scopes@[s as int].io_registry@.len() == 0,
            final(self).scopes@[s as int].agents@.len() == 0,
            final(self).scopes@[s as int].variables@.len() == 0,
            final(self).scopes@[s as int].children@.len() == 0,
            final(self).scopes@[s as int].cache@.len() == old(self).scopes@[
                template_scope as int].cache@.len(),
            forall|i: int| 0 <= i < old(self).scopes@[template_scope as int].cache@.len()
                ==> (#[trigger] final(self).scopes@[s as int].cache@[i]).0@ == old(
                self,
            ).scopes@[template_scope as int].cache@[i].0@ && final(self).scopes@[
                s as int].cache@[i].1 == old(self).scopes@[template_scope as int].cache@[i].1,
    {
        let tpl = self.scopes[template_scope].template;
        let parent = self.scopes[template_scope].parent;
        let sid = self.scopes[template_scope].scope_id;
        let path = self.scopes[template_scope].my_path.clone();
        let s = self.build_scope(tpl, parent, sid, path, true);
        self.set_inputs(s, inputs);
        let ghost mid = self.scopes@;
        let ncache = self.scopes[template_scope].cache.len();
        let mut cache: Vec<(String, usize)> = Vec::new();
        let mut i: usize = 0;
        while i < ncache
            invariant
                template_scope < self.scopes@.len(),
                s < self.scopes@.len(),
                self.scopes@ == mid,
                ncache == self.scopes@[template_scope as int].cache@.len(),
                i <= ncache,
                cache@.len() == i,
                forall|i2: int| 0 <= i2 < i ==> (#[trigger] cache@[i2]).0@ == mid[
                    template_scope as int].cache@[i2].0@ && cache@[i2].1 == mid[
                    template_scope as int].cache@[i2].1,
            decreases ncache - i,
        {
            let entry = (
                self.scopes[template_scope].cache[i].0.clone(),
                self.scopes[template_scope].cache[i].1,
            );
            cache.push(entry);
            i = i + 1;
        }
        let ghost pre2 = self.scopes@;
        self.scopes[s].cache = cache;
        proof {
            let post = self.scopes@;
            assert(post =~= pre2.update(s as int, post[s as int]));
        }
        s
    }
}

/// **Scoped identity.** In a scope built from a template, every node map
/// key is the scope-qualified hash of a local identifier of the
/// underlying specification — node `k`'s identifier is exactly
/// `scoped_of(scope_id, local_k)`.
pub proof fn lemma_scoped_ids(nodes: Seq<ExecutionNode>, c: Complex, sid: u128)
    requires
        nodes_match_template(nodes, c, sid),
    ensures
        forall|k: int| 0 <= k < nodes.len() ==> (#[trigger] nodes[k]).id == NodeId(
            scoped_of(sid, c.instances@[k].0.0),
        ),
{
}

/// **Stable identity across reload.** Two templates whose instance keys
/// agree — as they do when a specification is serialized and reloaded —
/// build, under one scope identifier, node maps with identical
/// scope-qualified identifiers.
pub proof fn lemma_reload_same_ids(
    n1: Seq<ExecutionNode>,
    n2: Seq<ExecutionNode>,
    c1: Complex,
    c2: Complex,
    sid: u128,
)
    requires
        nodes_match_template(n1, c1, sid),
        nodes_match_template(n2, c2, sid),
        c1.instances@.len() == c2.instances@.len(),
        forall|k: int| 0 <= k < c1.instances@.len() ==> (#[trigger] c1.instances@[k]).0
            == c2.instances@[k].0,
    ensures
        n1.len() == n2.len(),
        forall|k: int| 0 <= k < n1.len() ==> (#[trigger] n1[k]).id == n2[k].id,
{
}

/// **Edges resolve in scope.** In a scope built from a closed template —
/// one whose every edge source is an instance key — every input edge's
/// source identifier is the identifier of some node of the same scope.
pub proof fn lemma_edges_resolve(nodes: Seq<ExecutionNode>, c: Complex, sid: u128)
    requires
        nodes_match_template(nodes, c, sid),
        complex_closed(c),
    ensures
        forall|k: int, e: int| 0 <= k < nodes.len() && 0 <= e < nodes[k].inputs@.len()
            ==> (exists|k2: int| 0 <= k2 < nodes.len() && (#[trigger] nodes[k2]).id
            == (#[trigger] nodes[k].inputs@[e]).src),
{
    assert forall|k: int, e: int| 0 <= k < nodes.len() && 0 <= e < nodes[k].inputs@.len()
        implies (exists|k2: int| 0 <= k2 < nodes.len() && (#[trigger] nodes[k2]).id
        == (#[trigger] nodes[k].inputs@[e]).src) by {
        assert(0 <= k < c.instances@.len() && 0 <= e < c.instances@[k].1.inputs@.len());
        let k2 = choose|k2: int| 0 <= k2 < c.instances@.len() && (#[trigger] c.instances@[
            k2]).0 == c.instances@[k].1.inputs@[e].src;
        assert(nodes[k2].id == NodeId(scoped_of(sid, c.instances@[k2].0.0)));
        assert(nodes[k].inputs@[e] == (InputEdge {
            src: NodeId(scoped_of(sid, c.instances@[k].1.inputs@[e].src.0)),
            ..c.instances@[k].1.inputs@[e]
        }));
    }
}

} // verus!
