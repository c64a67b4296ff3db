//! Evaluator-scoped registries: named variables, the sub-graph template
//! cache shared up the parent chain, and the I/O-handle and agent
//! registries that inner scopes resolve through their ancestors.
use vstd::prelude::*;
use crate::agent::AgentState;
use crate::errors::EvalError;
use crate::evaluator::{Engine, Evaluator, engine_wf, in_chain, name_lookup, scopes_parents_wf};
use crate::ids::fresh_id;
use crate::iobuf::IoBuffer;
use crate::value::{DataValue, ValView};

verus! {

broadcast use crate::evaluator::lemma_step_frame_trans;

/// The shape a variable read yields: the stored value, or the absent
/// value for a name never written.
pub open spec fn var_read_spec(vars: Seq<(String, DataValue)>, name: Seq<char>) -> ValView {
    match name_lookup(vars, name) {
        Some(v) => v@,
        None => ValView::NullV,
    }
}

/// First position bound to a key in an identifier registry.
pub open spec fn id_pos<V>(m: Seq<(u128, V)>, k: u128) -> Option<int>
    decreases m.len(),
{
    if m.len() == 0 {
        None
    } else if m[0].0 == k {
        Some(0)
    } else {
        match id_pos(m.drop_first(), k) {
            Some(i) => Some(i + 1),
            None => None,
        }
    }
}

/// The scope, along the parent chain from `s`, whose registry binds the
/// identifier, paired with the position in that registry.
pub open spec fn io_chain_pos(scopes: Seq<Evaluator>, s: int, id: u128) -> Option<(int, int)>
    decreases s when 0 <= s < scopes.len() && scopes_parents_wf(scopes)
{
    match id_pos(scopes[s].io_registry@, id) {
        Some(p) => Some((s, p)),
        None => match scopes[s].parent {
            Some(par) => io_chain_pos(scopes, par as int, id),
            None => None,
        },
    }
}

/// The scope, along the parent chain from `s`, whose agent registry
/// binds the identifier, paired with the position.
pub open spec fn agent_chain_pos(scopes: Seq<Evaluator>, s: int, id: u128) -> Option<(int, int)>
    decreases s when 0 <= s < scopes.len() && scopes_parents_wf(scopes)
{
    match id_pos(scopes[s].agents@, id) {
        Some(p) => Some((s, p)),
        None => match scopes[s].parent {
            Some(par) => agent_chain_pos(scopes, par as int, id),
            None => None,
        },
    }
}

/// The template the cache chain from `s` resolves a path to: the own
/// cache first, then each ancestor's.
pub open spec fn cache_chain(scopes: Seq<Evaluator>, s: int, path: Seq<char>) -> Option<usize>
    decreases s when 0 <= s < scopes.len() && scopes_parents_wf(scopes)
{
    match name_lookup(scopes[s].cache@, path) {
        Some(t) => Some(t),
        None => match scopes[s].parent {
            Some(par) => cache_chain(scopes, par as int, path),
            None => None,
        },
    }
}

/// Looking a name up after pushing an unrelated binding is unchanged;
/// pushing a binding for an absent name makes it found.
pub proof fn lemma_name_lookup_push<V>(m: Seq<(String, V)>, k: Seq<char>, e: (String, V))
    ensures
        e.0@ == k && name_lookup(m, k) is None ==> name_lookup(m.push(e), k) == Some(e.1),
        e.0@ != k ==> name_lookup(m.push(e), k) == name_lookup(m, k),
        name_lookup(m, k) is Some ==> name_lookup(m.push(e), k) == name_lookup(m, k),
    decreases m.len(),
{
    if m.len() == 0 {
        assert(m.push(e)[0] == e);
        let emp: Seq<(String, V)> = Seq::empty();
        assert(name_lookup(emp, k) is None);
        assert(m.push(e).drop_first() =~= emp);
    } else {
        assert(m.push(e)[0] == m[0]);
        assert(m.push(e).drop_first() =~= m.drop_first().push(e));
        lemma_name_lookup_push(m.drop_first(), k, e);
        if m[0].0@ == k {
            assert(name_lookup(m.push(e), k) == Some(m[0].1));
            assert(name_lookup(m, k) == Some(m[0].1));
        } else {
            assert(name_lookup(m.push(e), k) == name_lookup(m.drop_first().push(e), k));
            assert(name_lookup(m, k) == name_lookup(m.drop_first(), k));
        }
    }
}

/// Updating the value at the first position a name is bound to changes
/// that name's lookup and no other's.
pub proof fn lemma_name_lookup_update<V>(m: Seq<(String, V)>, k: Seq<char>, i: int, e: (String, V))
    requires
        0 <= i < m.len(),
        m[i].0@ == k,
        e.0@ == k,
        forall|j: int| 0 <= j < i ==> (#[trigger] m[j]).0@ != k,
    ensures
        name_lookup(m.update(i, e), k) == Some(e.1),
        forall|k2: Seq<char>| k2 != k ==> name_lookup(m.update(i, e), k2) == name_lookup(m, k2),
    decreases m.len(),
{
    if i == 0 {
        assert(m.update(i, e)[0] == e);
        assert forall|k2: Seq<char>| k2 != k implies name_lookup(m.update(i, e), k2)
            == name_lookup(m, k2) by {
            assert(m.update(i, e).drop_first() =~= m.drop_first());
        }
    } else {
        assert(m.update(i, e)[0] == m[0]);
        assert(m.update(i, e).drop_first() =~= m.drop_first().update(i - 1, e));
        assert(m[0].0@ != k);
        lemma_name_lookup_update(m.drop_first(), k, i - 1, e);
        assert forall|k2: Seq<char>| k2 != k implies name_lookup(m.update(i, e), k2)
            == name_lookup(m, k2) by {
            if m[0].0@ == k2 {
            } else {
                assert(name_lookup(m.drop_first().update(i - 1, e), k2) == name_lookup(
                    m.drop_first(),
                    k2,
                ));
            }
        }
    }
}

impl Engine {
    /// Reads a scope variable: a known name yields its stored value; an
    /// unknown name is created holding the absent value, which is also
    /// what the read yields. A later read of the same name therefore
    /// yields the same value with no further change.
    #[verifier::loop_isolation(false)]
    pub fn var_get(&mut self, scope: usize, name: &String) -> (r: DataValue)
        requires
            engine_wf(*old(self)),
            scope < old(self).scopes@.len(),
        ensures
            engine_wf(*final(self)),
            crate::evaluator::step_frame(*old(self), *final(self)),
            final(self).templates@ == old(self).templates@,
            final(self).mails@ == old(self).mails@,
            final(self).scopes@.len() == old(self).scopes@.len(),
            r@ == var_read_spec(old(self).scopes@[scope as int].variables@, name@),
            name_lookup(final(self).scopes@[scope as int].variables@, name@) matches Some(v)
                && v@ == r@,
            forall|k2: Seq<char>| k2 != name@ ==> name_lookup(
                final(self).scopes@[scope as int].variables@,
                k2,
            ) == name_lookup(old(self).scopes@[scope as int].variables@, k2),
            forall|i: int| 0 <= i < old(self).scopes@.len() && i != scope
                ==> final(self).scopes@[i] == old(self).scopes@[i],
            crate::exec_node::scope_same_but_variables(
                final(self).scopes@[scope as int],
                old(self).scopes@[scope as int],
            ),
    {
        let ghost pre = self.scopes@;
        let nvars = self.scopes[scope].variables.len();
        let mut i: usize = 0;
        while i < nvars
            invariant
                scope < self.scopes@.len(),
                *self == *old(self),
                self.scopes@ == pre,
                nvars == self.scopes@[scope as int].variables@.len(),
                i <= nvars,
                forall|j: int| 0 <= j < i ==> (#[trigger] pre[scope as int].variables@[j]).0@
                    != name@,
            decreases nvars - i,
        {
            if self.scopes[scope].variables[i].0 == *name {
                let r = self.scopes[scope].variables[i].1.duplicate();
                proof {
                    lemma_name_lookup_prefix(pre[scope as int].variables@, name@, i as int);
                }
                return r;
            }
            i = i + 1;
        }
        proof {
            lemma_name_lookup_absent(pre[scope as int].variables@, name@);
        }
        self.scopes[scope].variables.push((name.clone(), DataValue::Null));
        proof {
            let post = self.scopes@;
            assert(post =~= pre.update(scope as int, post[scope as int]));
            assert(post[scope as int].variables@ == pre[scope as int].variables@.push(
                post[scope as int].variables@.last(),
            ));
            lemma_name_lookup_push(
                pre[scope as int].variables@,
                name@,
                post[scope as int].variables@.last(),
            );
            assert forall|k2: Seq<char>| k2 != name@ implies name_lookup(
                post[scope as int].variables@,
                k2,
            ) == name_lookup(pre[scope as int].variables@, k2) by {
                lemma_name_lookup_push(
                    pre[scope as int].variables@,
                    k2,
                    post[scope as int].variables@.last(),
                );
            }
        }
        DataValue::Null
    }

    /// Writes a scope variable: the name is bound to the value,
    /// overwriting any earlier binding; no other name changes.
    #[verifier::loop_isolation(false)]
    pub fn var_set(&mut self, scope: usize, name: &String, value: DataValue)
        requires
            engine_wf(*old(self)),
            scope < old(self).scopes@.len(),
        ensures
            engine_wf(*final(self)),
            crate::evaluator::step_frame(*old(self), *final(self)),
            final(self).templates@ == old(self).templates@,
            final(self).mails@ == old(self).mails@,
            final(self).scopes@.len() == old(self).scopes@.len(),
            name_lookup(final(self).scopes@[scope as int].variables@, name@) matches Some(v)
                && v@ == value@,
            forall|k2: Seq<char>| k2 != name@ ==> name_lookup(
                final(self).scopes@[scope as int].variables@,
                k2,
            ) == name_lookup(old(self).scopes@[scope as int].variables@, k2),
            forall|i: int| 0 <= i < old(self).scopes@.len() && i != scope
                ==> final(self).scopes@[i] == old(self).scopes@[i],
            crate::exec_node::scope_same_but_variables(
                final(self).scopes@[scope as int],
                old(self).scopes@[scope as int],
            ),
    {
        let ghost pre = self.scopes@;
        let ghost val_view = value@;
        let nvars = self.scopes[scope].variables.len();
        let mut i: usize = 0;
        while i < nvars
            invariant
                scope < self.scopes@.len(),
                *self == *old(self),
                self.scopes@ == pre,
                nvars == self.scopes@[scope as int].variables@.len(),
                i <= nvars,
                forall|j: int| 0 <= j < i ==> (#[trigger] pre[scope as int].variables@[j]).0@
                    != name@,
            decreases nvars - i,
        {
            if self.scopes[scope].variables[i].0 == *name {
                let entry = (name.clone(), value);
                let ghost e = entry;
                self.scopes[scope].variables[i] = entry;
                proof {
                    let post = self.scopes@;
                    assert(post =~= pre.update(scope as int, post[scope as int]));
                    assert(post[scope as int].variables@ =~= pre[
                        scope as int].variables@.update(i as int, e));
                    lemma_name_lookup_update(pre[scope as int].variables@, name@, i as int, e);
                }
                return ;
            }
            i = i + 1;
        }
        proof {
            lemma_name_lookup_absent(pre[scope as int].variables@, name@);
        }
        let entry = (name.clone(), value);
        let ghost e = entry;
        self.scopes[scope].variables.push(entry);
        proof {
            let post = self.scopes@;
            assert(post =~= pre.update(scope as int, post[scope as int]));
            assert(post[scope as int].variables@ == pre[scope as int].variables@.push(e));
            lemma_name_lookup_push(pre[scope as int].variables@, name@, e);
            assert forall|k2: Seq<char>| k2 != name@ implies name_lookup(
                post[scope as int].variables@,
                k2,
            ) == name_lookup(pre[scope as int].variables@, k2) by {
                lemma_name_lookup_push(pre[scope as int].variables@, k2, e);
            }
        }
    }
}

/// A fully-scanned list binds a name nowhere.
pub proof fn lemma_name_lookup_absent<V>(m: Seq<(String, V)>, k: Seq<char>)
    requires
        forall|j: int| 0 <= j < m.len() ==> (#[trigger] m[j]).0@ != k,
    ensures
        name_lookup(m, k) is None,
    decreases m.len(),
{
    if m.len() > 0 {
        assert(m.drop_first() =~= m.skip(1));
        assert forall|j: int| 0 <= j < m.drop_first().len() implies (#[trigger] m.drop_first()[
            j]).0@ != k by {
            assert(m.drop_first()[j] == m[j + 1]);
        }
        lemma_name_lookup_absent(m.drop_first(), k);
    }
}

/// A scan that stops at the first match returns what lookup returns.
pub proof fn lemma_name_lookup_prefix<V>(m: Seq<(String, V)>, k: Seq<char>, i: int)
    requires
        0 <= i < m.len(),
        m[i].0@ == k,
        forall|j: int| 0 <= j < i ==> (#[trigger] m[j]).0@ != k,
    ensures
        name_lookup(m, k) == Some(m[i].1),
    decreases i,
{
    if i > 0 {
        assert(m.drop_first() =~= m.skip(1));
        assert forall|j: int| 0 <= j < i - 1 implies (#[trigger] m.drop_first()[j]).0@ != k by {
            assert(m.drop_first()[j] == m[j + 1]);
        }
        assert(m.drop_first()[i - 1] == m[i]);
        lemma_name_lookup_prefix(m.drop_first(), k, i - 1);
    }
}

/// **Variable reads are stable.** Reading a never-written name yields the
/// absent value and binds the name to it, so a second read yields the
/// absent value again: the two observations are the same.
pub proof fn lemma_variable_get_stable(
    vars0: Seq<(String, DataValue)>,
    vars1: Seq<(String, DataValue)>,
    name: Seq<char>,
)
    requires
        name_lookup(vars0, name) is None,
        name_lookup(vars1, name) matches Some(v) && v@ == var_read_spec(vars0, name),
    ensures
        var_read_spec(vars0, name) == ValView::NullV,
        var_read_spec(vars1, name) == var_read_spec(vars0, name),
{
}


/// All scope fields but the template cache agree.
pub open spec fn scope_same_but_cache(a: Evaluator, b: Evaluator) -> bool {
    &&& b.scope_id == a.scope_id
    &&& b.template == a.template
    &&& b.nodes == a.nodes
    &&& b.end_node == a.end_node
    &&& b.inputs == a.inputs
    &&& b.my_path == a.my_path
    &&& b.closed == a.closed
    &&& b.running == a.running
    &&& b.io_registry == a.io_registry
    &&& b.agents == a.agents
    &&& b.variables == a.variables
    &&& b.children == a.children
    &&& b.dangling == a.dangling
    &&& b.parent == a.parent
}

impl Engine {
    /// The first position a path is bound to in a scope's own template
    /// cache.
    #[verifier::loop_isolation(false)]
    fn cache_lookup_local(&self, scope: usize, path: &String) -> (r: Option<usize>)
        requires
            scope < self.scopes@.len(),
        ensures
            (match r {
                Some(t) => name_lookup(self.scopes@[scope as int].cache@, path@) == Some(t),
                None => name_lookup(self.scopes@[scope as int].cache@, path@) is None,
            }),
    {
        let n = self.scopes[scope].cache.len();
        let mut i: usize = 0;
        while i < n
            invariant
                i <= n,
                forall|j: int| 0 <= j < i ==> (#[trigger] self.scopes@[scope as int].cache@[
                    j]).0@ != path@,
            decreases n - i,
        {
            if self.scopes[scope].cache[i].0 == *path {
                proof {
                    lemma_name_lookup_prefix(self.scopes@[scope as int].cache@, path@, i as int);
                }
                return Some(self.scopes[scope].cache[i].1);
            }
            i = i + 1;
        }
        proof {
            lemma_name_lookup_absent(self.scopes@[scope as int].cache@, path@);
        }
        None
    }

    /// Resolves a sub-graph path through the template cache of this scope
    /// and then of each ancestor, as `cache_chain` states; a hit found
    /// during the parent walk is memoized into this scope's own cache, so
    /// the next resolution finds it locally. No other binding, scope or
    /// ancestor cache changes; a miss changes nothing.
    #[verifier::loop_isolation(false)]
    pub fn get_evaluator(&mut self, scope: usize, path: &String) -> (r: Option<usize>)
        requires
            engine_wf(*old(self)),
            scope < old(self).scopes@.len(),
        ensures
            engine_wf(*final(self)),
            crate::evaluator::step_frame(*old(self), *final(self)),
            final(self).mails@ == old(self).mails@,
            final(self).templates@ == old(self).templates@,
            final(self).scopes@.len() == old(self).scopes@.len(),
            r == cache_chain(old(self).scopes@, scope as int, path@),
            (match r {
                Some(t) => name_lookup(final(self).scopes@[scope as int].cache@, path@) == Some(
                    t,
                ),
                None => final(self).scopes@ == old(self).scopes@,
            }),
            forall|i: int| 0 <= i < old(self).scopes@.len() && i != scope
                ==> final(self).scopes@[i] == old(self).scopes@[i],
            scope_same_but_cache(final(self).scopes@[scope as int], old(self).scopes@[
                scope as int]),
            forall|k2: Seq<char>| k2 != path@ ==> name_lookup(
                final(self).scopes@[scope as int].cache@,
                k2,
            ) == name_lookup(old(self).scopes@[scope as int].cache@, k2),
    {
        let mut s = scope;
        let mut found: Option<usize> = Option::None;
        loop
            invariant
                *self == *old(self),
                s < self.scopes@.len(),
                found is None,
                cache_chain(self.scopes@, scope as int, path@) == cache_chain(
                    self.scopes@,
                    s as int,
                    path@,
                ),
            decreases s,
        {
            match self.cache_lookup_local(s, path) {
                Some(t) => {
                    if s == scope {
                        // Already bound locally: nothing to memoize.
                        return Some(t);
                    }
                    found = Some(t);
                    break;
                },
                None => {
                    match self.scopes[s].parent {
                        Some(p) => {
                            s = p;
                        },
                        None => {
                            return Option::None;
                        },
                    }
                },
            }
        }
        match found {
            Some(t) => {
                self.cache_insert_local(scope, path, t);
                Some(t)
            },
            None => Option::None,
        }
    }

    /// Binds a path to a template in one scope's own cache, overwriting
    /// any earlier binding.
    #[verifier::loop_isolation(false)]
    fn cache_insert_local(&mut self, scope: usize, path: &String, tpl: usize)
        requires
            engine_wf(*old(self)),
            scope < old(self).scopes@.len(),
        ensures
            engine_wf(*final(self)),
            crate::evaluator::step_frame(*old(self), *final(self)),
            final(self).templates@ == old(self).templates@,
            final(self).mails@ == old(self).mails@,
            final(self).scopes@.len() == old(self).scopes@.len(),
            name_lookup(final(self).scopes@[scope as int].cache@, path@) == Some(tpl),
            forall|k2: Seq<char>| k2 != path@ ==> name_lookup(
                final(self).scopes@[scope as int].cache@,
                k2,
            ) == name_lookup(old(self).scopes@[scope as int].cache@, k2),
            forall|i: int| 0 <= i < old(self).scopes@.len() && i != scope
                ==> final(self).scopes@[i] == old(self).scopes@[i],
            scope_same_but_cache(final(self).scopes@[scope as int], old(self).scopes@[
                scope as int]),
    {
        let ghost pre = self.scopes@;
        let n = self.scopes[scope].cache.len();
        let mut i: usize = 0;
        while i < n
            invariant
                scope < self.scopes@.len(),
                *self == *old(self),
                self.scopes@ == pre,
                n == self.scopes@[scope as int].cache@.len(),
                i <= n,
                forall|j: int| 0 <= j < i ==> (#[trigger] pre[scope as int].cache@[j]).0@
                    != path@,
            decreases n - i,
        {
            if self.scopes[scope].cache[i].0 == *path {
                let entry = (path.clone(), tpl);
                let ghost e = entry;
                self.scopes[scope].cache[i] = entry;
                proof {
                    let post = self.scopes@;
                    assert(post =~= pre.update(scope as int, post[scope as int]));
                    assert(post[scope as int].cache@ =~= pre[scope as int].cache@.update(
                        i as int,
                        e,
                    ));
                    lemma_name_lookup_update(pre[scope as int].cache@, path@, i as int, e);
                }
                return ;
            }
            i = i + 1;
        }
        proof {
            lemma_name_lookup_absent(pre[scope as int].cache@, path@);
        }
        let entry = (path.clone(), tpl);
        let ghost e = entry;
        self.scopes[scope].cache.push(entry);
        proof {
            let post = self.scopes@;
            assert(post =~= pre.update(scope as int, post[scope as int]));
            assert(post[scope as int].cache@ == pre[scope as int].cache@.push(e));
            lemma_name_lookup_push(pre[scope as int].cache@, path@, e);
            assert forall|k2: Seq<char>| k2 != path@ implies name_lookup(
                post[scope as int].cache@,
                k2,
            ) == name_lookup(pre[scope as int].cache@, k2) by {
                lemma_name_lookup_push(pre[scope as int].cache@, k2, e);
            }
        }
    }

    /// Binds a path to a template in this scope's cache and in every
    /// ancestor's, so that the whole chain resolves it.
    #[verifier::loop_isolation(false)]
    pub fn add_evaluator(&mut self, scope: usize, path: &String, tpl: usize)
        requires
            engine_wf(*old(self)),
            scope < old(self).scopes@.len(),
        ensures
            engine_wf(*final(self)),
            crate::evaluator::step_frame(*old(self), *final(self)),
            final(self).templates@ == old(self).templates@,
            final(self).mails@ == old(self).mails@,
            final(self).scopes@.len() == old(self).scopes@.len(),
            forall|a: int| 0 <= a < old(self).scopes@.len() && in_chain(
                old(self).scopes@,
                scope as int,
                a,
            ) ==> name_lookup((#[trigger] final(self).scopes@[a]).cache@, path@) == Some(tpl),
            forall|i: int| 0 <= i < old(self).scopes@.len() && !in_chain(
                old(self).scopes@,
                scope as int,
                i,
            ) ==> final(self).scopes@[i] == old(self).scopes@[i],
            forall|i: int| 0 <= i < old(self).scopes@.len() ==> scope_same_but_cache(
                #[trigger] final(self).scopes@[i],
                old(self).scopes@[i],
            ),
            forall|i: int, k2: Seq<char>|
                #![trigger name_lookup(final(self).scopes@[i].cache@, k2)]
                0 <= i < old(self).scopes@.len() && k2 != path@ ==> name_lookup(
                    final(self).scopes@[i].cache@,
                    k2,
                ) == name_lookup(old(self).scopes@[i].cache@, k2),
    {
        let ghost orig = self.scopes@;
        proof {
            crate::evaluator::lemma_step_frame_refl(*old(self));
        }
        let mut s = scope;
        loop
            invariant
                engine_wf(*self),
                crate::evaluator::step_frame(*old(self), *self),
                s < self.scopes@.len(),
                self.scopes@.len() == orig.len(),
                self.templates@ == old(self).templates@,
                self.mails@ == old(self).mails@,
                in_chain(orig, scope as int, s as int),
                self.scopes@[s as int].parent == orig[s as int].parent,
                forall|a: int| 0 <= a < orig.len() && in_chain(orig, scope as int, a)
                    && !in_chain(orig, s as int, a) ==> name_lookup(
                    (#[trigger] self.scopes@[a]).cache@,
                    path@,
                ) == Some(tpl),
                forall|i: int| 0 <= i < orig.len() && !in_chain(orig, scope as int, i)
                    ==> self.scopes@[i] == orig[i],
                forall|i: int| 0 <= i < orig.len() ==> scope_same_but_cache(
                    #[trigger] self.scopes@[i],
                    orig[i],
                ),
                forall|i: int, k2: Seq<char>|
                    #![trigger name_lookup(self.scopes@[i].cache@, k2)]
                    0 <= i < orig.len() && k2 != path@ ==> name_lookup(
                        self.scopes@[i].cache@,
                        k2,
                    ) == name_lookup(orig[i].cache@, k2),
                scopes_parents_wf(orig),
            decreases s,
        {
            let ghost before = self.scopes@;
            self.cache_insert_local(s, path, tpl);
            proof {
                lemma_in_chain_step(orig, scope as int, s as int);
                assert forall|i: int, k2: Seq<char>|
                    #![trigger name_lookup(self.scopes@[i].cache@, k2)]
                    0 <= i < orig.len() && k2 != path@ implies name_lookup(
                    self.scopes@[i].cache@,
                    k2,
                ) == name_lookup(orig[i].cache@, k2) by {
                    if i == s {
                        assert(name_lookup(self.scopes@[i].cache@, k2) == name_lookup(
                            before[i].cache@,
                            k2,
                        ));
                        assert(name_lookup(before[i].cache@, k2) == name_lookup(
                            orig[i].cache@,
                            k2,
                        ));
                    } else {
                        assert(self.scopes@[i] == before[i]);
                    }
                }
            }
            match self.scopes[s].parent {
                Some(p) => {
                    proof {
                        lemma_in_chain_parent(orig, scope as int, s as int, p as int);
                    }
                    s = p;
                },
                None => {
                    break;
                },
            }
        }
        proof {
            assert forall|a: int| 0 <= a < orig.len() && in_chain(orig, scope as int, a)
                implies name_lookup((#[trigger] final(self).scopes@[a]).cache@, path@) == Some(
                tpl,
            ) by {
            }
        }
    }
}

/// A chain that reaches a scope also reaches that scope's parent.
pub proof fn lemma_in_chain_parent(scopes: Seq<Evaluator>, s: int, cur: int, p: int)
    requires
        scopes_parents_wf(scopes),
        0 <= s < scopes.len(),
        0 <= cur < scopes.len(),
        in_chain(scopes, s, cur),
        scopes[cur].parent matches Some(q) && q as int == p,
    ensures
        in_chain(scopes, s, p),
    decreases s,
{
    if s == cur {
        assert(in_chain(scopes, p, p));
    } else {
        match scopes[s].parent {
            Some(q) => {
                lemma_in_chain_parent(scopes, q as int, cur, p);
            },
            None => {},
        }
    }
}

/// Membership in a chain either ends at its head or steps to the parent.
pub proof fn lemma_in_chain_step(scopes: Seq<Evaluator>, s: int, cur: int)
    requires
        scopes_parents_wf(scopes),
        0 <= cur < scopes.len(),
        0 <= s < scopes.len(),
    ensures
        forall|a: int| in_chain(scopes, cur, a) && a != cur ==> (match scopes[cur].parent {
            Some(p) => in_chain(scopes, p as int, a),
            None => false,
        }),
{
}

/// **Cache coherence up the chain.** After a path is bound in a scope and
/// all its ancestors, resolving the path through the chain of that scope
/// or of any of its ancestors finds exactly that binding: the own cache
/// already holds it.
pub proof fn lemma_add_evaluator_visible(scopes: Seq<Evaluator>, s: int, a: int, path: Seq<char>, tpl: usize)
    requires
        scopes_parents_wf(scopes),
        0 <= s < scopes.len(),
        0 <= a,
        in_chain(scopes, s, a),
        forall|b: int| 0 <= b < scopes.len() && in_chain(scopes, s, b) ==> name_lookup(
            (#[trigger] scopes[b]).cache@,
            path,
        ) == Some(tpl),
    ensures
        a < scopes.len(),
        cache_chain(scopes, a, path) == Some(tpl),
    decreases s,
{
    lemma_in_chain_bounds(scopes, s, a);
}

/// Every member of a chain is a valid scope index at or below the head.
pub proof fn lemma_in_chain_bounds(scopes: Seq<Evaluator>, s: int, a: int)
    requires
        scopes_parents_wf(scopes),
        0 <= s < scopes.len(),
        in_chain(scopes, s, a),
    ensures
        0 <= a <= s,
    decreases s,
{
    if s != a {
        match scopes[s].parent {
            Some(p) => {
                lemma_in_chain_bounds(scopes, p as int, a);
            },
            None => {},
        }
    }
}



/// All scope fields but the I/O registry agree.
pub open spec fn scope_same_but_io(a: Evaluator, b: Evaluator) -> bool {
    &&& b.scope_id == a.scope_id
    &&& b.template == a.template
    &&& b.nodes == a.nodes
    &&& b.end_node == a.end_node
    &&& b.inputs == a.inputs
    &&& b.my_path == a.my_path
    &&& b.closed == a.closed
    &&& b.running == a.running
    &&& b.agents == a.agents
    &&& b.variables == a.variables
    &&& b.cache == a.cache
    &&& b.children == a.children
    &&& b.dangling == a.dangling
    &&& b.parent == a.parent
}

/// All scope fields but the agent registry agree.
pub open spec fn scope_same_but_agents(a: Evaluator, b: Evaluator) -> bool {
    &&& b.scope_id == a.scope_id
    &&& b.template == a.template
    &&& b.nodes == a.nodes
    &&& b.end_node == a.end_node
    &&& b.inputs == a.inputs
    &&& b.my_path == a.my_path
    &&& b.closed == a.closed
    &&& b.running == a.running
    &&& b.io_registry == a.io_registry
    &&& b.variables == a.variables
    &&& b.cache == a.cache
    &&& b.children == a.children
    &&& b.dangling == a.dangling
    &&& b.parent == a.parent
}

/// No element of the registry carries this key.
pub open spec fn id_absent<V>(m: Seq<(u128, V)>, k: u128) -> bool {
    forall|j: int| 0 <= j < m.len() ==> (#[trigger] m[j]).0 != k
}

impl Engine {
    /// A key strictly above every key in a scope's I/O registry, seeded
    /// randomly for an empty registry.
    #[verifier::loop_isolation(false)]
    fn fresh_io_key(&self, scope: usize) -> (r: u128)
        requires
            engine_wf(*self),
            scope < self.scopes@.len(),
        ensures
            id_absent(self.scopes@[scope as int].io_registry@, r),
            r < 0x4000_0000_0000_0000_0000_0000_0000_0000
                + self.scopes@[scope as int].io_registry@.len() + 1,
    {
        let n = self.scopes[scope].io_registry.len();
        if n == 0 {
            return fresh_id() % 0x4000_0000_0000_0000_0000_0000_0000_0000u128;
        }
        proof {
            assert(crate::evaluator::keys_bounded(self.scopes@[scope as int].io_registry@));
        }
        let mut hi: u128 = self.scopes[scope].io_registry[0].0;
        let mut i: usize = 1;
        while i < n
            invariant
                1 <= i <= n,
                forall|j: int| 0 <= j < i ==> (#[trigger] self.scopes@[scope as int].io_registry@[
                    j]).0 <= hi,
                hi < 0x4000_0000_0000_0000_0000_0000_0000_0000 + n,
            decreases n - i,
        {
            if self.scopes[scope].io_registry[i].0 > hi {
                hi = self.scopes[scope].io_registry[i].0;
            }
            i = i + 1;
        }
        hi + 1
    }

    /// Stores an I/O handle in a scope's own registry under a fresh
    /// identifier, which it returns.
    pub fn register_io(&mut self, scope: usize, io: IoBuffer) -> (r: u128)
        requires
            engine_wf(*old(self)),
            scope < old(self).scopes@.len(),
            crate::iobuf::iobuf_wf(io),
        ensures
            engine_wf(*final(self)),
            crate::evaluator::step_frame(*old(self), *final(self)),
            final(self).templates@ == old(self).templates@,
            final(self).mails@ == old(self).mails@,
            final(self).scopes@.len() == old(self).scopes@.len(),
            crate::evaluator::scopes_preserve_nodes(old(self).scopes@, final(self).scopes@),
            final(self).scopes@[scope as int].io_registry@ == old(self).scopes@[
                scope as int].io_registry@.push((r, io)),
            id_absent(old(self).scopes@[scope as int].io_registry@, r),
            forall|i: int| 0 <= i < old(self).scopes@.len() && i != scope
                ==> final(self).scopes@[i] == old(self).scopes@[i],
            scope_same_but_io(final(self).scopes@[scope as int], old(self).scopes@[scope as int]),
    {
        let ghost pre = self.scopes@;
        let key = self.fresh_io_key(scope);
        self.scopes[scope].io_registry.push((key, io));
        proof {
            let post = self.scopes@;
            assert(post =~= pre.update(scope as int, post[scope as int]));
        }
        key
    }

    /// Finds, along the parent chain, the scope and position an I/O
    /// identifier is registered at, as `io_chain_pos` states.
    #[verifier::loop_isolation(false)]
    pub fn find_io_entry(&self, scope: usize, id: u128) -> (r: Option<(usize, usize)>)
        requires
            engine_wf(*self),
            scope < self.scopes@.len(),
        ensures
            (match r {
                Some(sp) => {
                    &&& io_chain_pos(self.scopes@, scope as int, id) == Some((
                        sp.0 as int,
                        sp.1 as int,
                    ))
                    &&& sp.0 < self.scopes@.len()
                    &&& sp.1 < self.scopes@[sp.0 as int].io_registry@.len()
                    &&& self.scopes@[sp.0 as int].io_registry@[sp.1 as int].0 == id
                },
                None => io_chain_pos(self.scopes@, scope as int, id) is None,
            }),
    {
        let mut s = scope;
        loop
            invariant
                s < self.scopes@.len(),
                io_chain_pos(self.scopes@, scope as int, id) == io_chain_pos(
                    self.scopes@,
                    s as int,
                    id,
                ),
            decreases s,
        {
            let n = self.scopes[s].io_registry.len();
            let mut i: usize = 0;
            while i < n
                invariant
                    s < self.scopes@.len(),
                    n == self.scopes@[s as int].io_registry@.len(),
                    i <= n,
                    forall|j: int| 0 <= j < i ==> (#[trigger] self.scopes@[s as int].io_registry@[
                        j]).0 != id,
                decreases n - i,
            {
                if self.scopes[s].io_registry[i].0 == id {
                    proof {
                        lemma_id_pos_prefix(self.scopes@[s as int].io_registry@, id, i as int);
                    }
                    return Some((s, i));
                }
                i = i + 1;
            }
            proof {
                lemma_id_pos_absent(self.scopes@[s as int].io_registry@, id);
            }
            match self.scopes[s].parent {
                Some(p) => {
                    s = p;
                },
                None => {
                    return None;
                },
            }
        }
    }

    /// Reads up to `size` bytes from the handle the chain resolves, or
    /// fails with the missing identifier.
    pub fn read_bytes(&mut self, scope: usize, id: u128, size: usize) -> (r: Result<
        Vec<u8>,
        EvalError,
    >)
        requires
            engine_wf(*old(self)),
            scope < old(self).scopes@.len(),
        ensures
            engine_wf(*final(self)),
            crate::evaluator::step_frame(*old(self), *final(self)),
            final(self).templates@ == old(self).templates@,
            final(self).mails@ == old(self).mails@,
            final(self).scopes@.len() == old(self).scopes@.len(),
            crate::evaluator::scopes_preserve_nodes(old(self).scopes@, final(self).scopes@),
            io_chain_pos(old(self).scopes@, scope as int, id) is None <==> (r matches Err(e)
                && e matches EvalError::IoNotFound(got) && got == id),
            (match io_chain_pos(old(self).scopes@, scope as int, id) {
                Some(sp) => r matches Ok(bytes) && {
                    let buf = old(self).scopes@[sp.0].io_registry@[sp.1].1;
                    let rem = crate::iobuf::remaining(buf);
                    &&& bytes@ == rem.take(
                        if size as int <= rem.len() {
                            size as int
                        } else {
                            rem.len() as int
                        },
                    )
                    &&& final(self).scopes@[sp.0].io_registry@[sp.1].1.pos == buf.pos
                        + bytes@.len()
                    &&& final(self).scopes@[sp.0].io_registry@[sp.1].1.input@ == buf.input@
                    &&& final(self).scopes@[sp.0].io_registry@[sp.1].1.written@ == buf.written@
                },
                None => final(self).scopes@ == old(self).scopes@,
            }),
    {
        let ghost pre = self.scopes@;
        match self.find_io_entry(scope, id) {
            None => Err(EvalError::IoNotFound(id)),
            Some((si, pos)) => {
                let bytes = self.scopes[si].io_registry[pos].1.read_bytes(size);
                proof {
                    let post = self.scopes@;
                    assert(post =~= pre.update(si as int, post[si as int]));
                    assert(post[si as int].io_registry@ =~= pre[si as int].io_registry@.update(
                        pos as int,
                        post[si as int].io_registry@[pos as int],
                    ));
                }
                Ok(bytes)
            },
        }
    }

    /// Writes bytes to the handle the chain resolves, or fails with the
    /// missing identifier.
    pub fn write_bytes(&mut self, scope: usize, id: u128, data: &Vec<u8>) -> (r: Result<
        (),
        EvalError,
    >)
        requires
            engine_wf(*old(self)),
            scope < old(self).scopes@.len(),
        ensures
            engine_wf(*final(self)),
            crate::evaluator::step_frame(*old(self), *final(self)),
            final(self).templates@ == old(self).templates@,
            final(self).mails@ == old(self).mails@,
            final(self).scopes@.len() == old(self).scopes@.len(),
            crate::evaluator::scopes_preserve_nodes(old(self).scopes@, final(self).scopes@),
            io_chain_pos(old(self).scopes@, scope as int, id) is None <==> (r matches Err(e)
                && e matches EvalError::IoNotFound(got) && got == id),
            (match io_chain_pos(old(self).scopes@, scope as int, id) {
                Some(sp) => r is Ok && {
                    let buf = old(self).scopes@[sp.0].io_registry@[sp.1].1;
                    &&& final(self).scopes@[sp.0].io_registry@[sp.1].1.written@ == buf.written@
                        + data@
                    &&& final(self).scopes@[sp.0].io_registry@[sp.1].1.input@ == buf.input@
                    &&& final(self).scopes@[sp.0].io_registry@[sp.1].1.pos == buf.pos
                },
                None => final(self).scopes@ == old(self).scopes@,
            }),
    {
        let ghost pre = self.scopes@;
        match self.find_io_entry(scope, id) {
            None => Err(EvalError::IoNotFound(id)),
            Some((si, pos)) => {
                self.scopes[si].io_registry[pos].1.write_bytes(data);
                proof {
                    let post = self.scopes@;
                    assert(post =~= pre.update(si as int, post[si as int]));
                    assert(post[si as int].io_registry@ =~= pre[si as int].io_registry@.update(
                        pos as int,
                        post[si as int].io_registry@[pos as int],
                    ));
                }
                Ok(())
            },
        }
    }

    /// Reads from the resolved handle until the byte pattern matches
    /// (inclusive) or the input is exhausted, as the buffer's
    /// `read_until` states; fails with the missing identifier.
    pub fn read_until(&mut self, scope: usize, id: u128, pattern: &Vec<u8>) -> (r: Result<
        Vec<u8>,
        EvalError,
    >)
        requires
            engine_wf(*old(self)),
            scope < old(self).scopes@.len(),
        ensures
            engine_wf(*final(self)),
            crate::evaluator::step_frame(*old(self), *final(self)),
            final(self).templates@ == old(self).templates@,
            final(self).mails@ == old(self).mails@,
            final(self).scopes@.len() == old(self).scopes@.len(),
            crate::evaluator::scopes_preserve_nodes(old(self).scopes@, final(self).scopes@),
            io_chain_pos(old(self).scopes@, scope as int, id) is None <==> (r matches Err(e)
                && e matches EvalError::IoNotFound(got) && got == id),
            (match io_chain_pos(old(self).scopes@, scope as int, id) {
                Some(sp) => r matches Ok(bytes) && {
                    let buf = old(self).scopes@[sp.0].io_registry@[sp.1].1;
                    &&& bytes@ == crate::iobuf::read_until_spec(
                        crate::iobuf::remaining(buf),
                        pattern@,
                    )
                    &&& final(self).scopes@[sp.0].io_registry@[sp.1].1.pos == buf.pos
                        + bytes@.len()
                    &&& final(self).scopes@[sp.0].io_registry@[sp.1].1.input@ == buf.input@
                    &&& final(self).scopes@[sp.0].io_registry@[sp.1].1.written@ == buf.written@
                },
                None => final(self).scopes@ == old(self).scopes@,
            }),
    {
        let ghost pre = self.scopes@;
        match self.find_io_entry(scope, id) {
            None => Err(EvalError::IoNotFound(id)),
            Some((si, pos)) => {
                let bytes = self.scopes[si].io_registry[pos].1.read_until(pattern);
                proof {
                    let post = self.scopes@;
                    assert(post =~= pre.update(si as int, post[si as int]));
                    assert(post[si as int].io_registry@ =~= pre[si as int].io_registry@.update(
                        pos as int,
                        post[si as int].io_registry@[pos as int],
                    ));
                }
                Ok(bytes)
            },
        }
    }

    /// Stores an agent in a scope's own registry under a fresh
    /// identifier, which it returns.
    #[verifier::loop_isolation(false)]
    pub fn register_agent(&mut self, scope: usize, agent: AgentState) -> (r: u128)
        requires
            engine_wf(*old(self)),
            scope < old(self).scopes@.len(),
        ensures
            engine_wf(*final(self)),
            crate::evaluator::step_frame(*old(self), *final(self)),
            final(self).templates@ == old(self).templates@,
            final(self).mails@ == old(self).mails@,
            final(self).scopes@.len() == old(self).scopes@.len(),
            crate::evaluator::scopes_preserve_nodes(old(self).scopes@, final(self).scopes@),
            final(self).scopes@[scope as int].agents@ == old(self).scopes@[
                scope as int].agents@.push((r, agent)),
            id_absent(old(self).scopes@[scope as int].agents@, r),
            forall|i: int| 0 <= i < old(self).scopes@.len() && i != scope
                ==> final(self).scopes@[i] == old(self).scopes@[i],
            scope_same_but_agents(final(self).scopes@[scope as int], old(self).scopes@[
                scope as int]),
    {
        let ghost pre = self.scopes@;
        let n = self.scopes[scope].agents.len();
        let key: u128 = if n == 0 {
            fresh_id() % 0x4000_0000_0000_0000_0000_0000_0000_0000u128
        } else {
            proof {
                assert(crate::evaluator::keys_bounded(self.scopes@[scope as int].agents@));
            }
            let mut hi: u128 = self.scopes[scope].agents[0].0;
            let mut i: usize = 1;
            while i < n
                invariant
                    1 <= i <= n,
                    n == self.scopes@[scope as int].agents@.len(),
                    forall|j: int| 0 <= j < i ==> (#[trigger] self.scopes@[scope as int].agents@[
                        j]).0 <= hi,
                    hi < 0x4000_0000_0000_0000_0000_0000_0000_0000 + n,
                decreases n - i,
            {
                if self.scopes[scope].agents[i].0 > hi {
                    hi = self.scopes[scope].agents[i].0;
                }
                i = i + 1;
            }
            hi + 1
        };
        self.scopes[scope].agents.push((key, agent));
        proof {
            let post = self.scopes@;
            assert(post =~= pre.update(scope as int, post[scope as int]));
        }
        key
    }

    /// Finds, along the parent chain, the scope and position an agent
    /// identifier is registered at, as `agent_chain_pos` states.
    #[verifier::loop_isolation(false)]
    pub fn find_agent_entry(&self, scope: usize, id: u128) -> (r: Option<(usize, usize)>)
        requires
            engine_wf(*self),
            scope < self.scopes@.len(),
        ensures
            (match r {
                Some(sp) => {
                    &&& agent_chain_pos(self.scopes@, scope as int, id) == Some((
                        sp.0 as int,
                        sp.1 as int,
                    ))
                    &&& sp.0 < self.scopes@.len()
                    &&& sp.1 < self.scopes@[sp.0 as int].agents@.len()
                    &&& self.scopes@[sp.0 as int].agents@[sp.1 as int].0 == id
                },
                None => agent_chain_pos(self.scopes@, scope as int, id) is None,
            }),
    {
        let mut s = scope;
        loop
            invariant
                s < self.scopes@.len(),
                agent_chain_pos(self.scopes@, scope as int, id) == agent_chain_pos(
                    self.scopes@,
                    s as int,
                    id,
                ),
            decreases s,
        {
            let n = self.scopes[s].agents.len();
            let mut i: usize = 0;
            while i < n
                invariant
                    s < self.scopes@.len(),
                    n == self.scopes@[s as int].agents@.len(),
                    i <= n,
                    forall|j: int| 0 <= j < i ==> (#[trigger] self.scopes@[s as int].agents@[
                        j]).0 != id,
                decreases n - i,
            {
                if self.scopes[s].agents[i].0 == id {
                    proof {
                        lemma_id_pos_prefix(self.scopes@[s as int].agents@, id, i as int);
                    }
                    return Some((s, i));
                }
                i = i + 1;
            }
            proof {
                lemma_id_pos_absent(self.scopes@[s as int].agents@, id);
            }
            match self.scopes[s].parent {
                Some(p) => {
                    s = p;
                },
                None => {
                    return None;
                },
            }
        }
    }
}

/// A scan that stops at the first matching key returns its position.
pub proof fn lemma_id_pos_prefix<V>(m: Seq<(u128, V)>, k: u128, i: int)
    requires
        0 <= i < m.len(),
        m[i].0 == k,
        forall|j: int| 0 <= j < i ==> (#[trigger] m[j]).0 != k,
    ensures
        id_pos(m, k) == Some(i),
    decreases i,
{
    if i > 0 {
        assert forall|j: int| 0 <= j < i - 1 implies (#[trigger] m.drop_first()[j]).0 != k by {
            assert(m.drop_first()[j] == m[j + 1]);
        }
        assert(m.drop_first()[i - 1] == m[i]);
        lemma_id_pos_prefix(m.drop_first(), k, i - 1);
    }
}

/// A found position is in range and carries the key.
pub proof fn lemma_id_pos_valid<V>(m: Seq<(u128, V)>, k: u128)
    ensures
        id_pos(m, k) matches Some(i) ==> 0 <= i < m.len() && m[i].0 == k,
    decreases m.len(),
{
    if m.len() > 0 && m[0].0 != k {
        lemma_id_pos_valid(m.drop_first(), k);
        if id_pos(m.drop_first(), k) is Some {
            let i = id_pos(m.drop_first(), k)->Some_0;
            assert(m.drop_first()[i] == m[i + 1]);
        }
    }
}

/// A resolved handle names a scope in range and a registry position in
/// range carrying the identifier.
pub proof fn lemma_io_chain_pos_valid(scopes: Seq<Evaluator>, s: int, id: u128)
    requires
        scopes_parents_wf(scopes),
        0 <= s < scopes.len(),
    ensures
        io_chain_pos(scopes, s, id) matches Some(sp) ==> 0 <= sp.0 < scopes.len() && 0 <= sp.1
            < scopes[sp.0].io_registry@.len() && scopes[sp.0].io_registry@[sp.1].0 == id,
    decreases s,
{
    lemma_id_pos_valid(scopes[s].io_registry@, id);
    if id_pos(scopes[s].io_registry@, id) is None {
        match scopes[s].parent {
            Some(p) => {
                lemma_io_chain_pos_valid(scopes, p as int, id);
            },
            None => {},
        }
    }
}

/// A fully-scanned registry binds a key nowhere.
pub proof fn lemma_id_pos_absent<V>(m: Seq<(u128, V)>, k: u128)
    requires
        id_absent(m, k),
    ensures
        id_pos(m, k) is None,
    decreases m.len(),
{
    if m.len() > 0 {
        assert forall|j: int| 0 <= j < m.drop_first().len() implies (#[trigger] m.drop_first()[
            j]).0 != k by {
            assert(m.drop_first()[j] == m[j + 1]);
        }
        lemma_id_pos_absent(m.drop_first(), k);
    }
}


} // verus!
