use vstd::prelude::*;
use crate::registry::{Registry, RelKind};
use crate::selection::{PlanNode, Selected, SelectionPlan};

verus! {

/// One storage query. Step 0 lists the root entity; every other step loads the targets of
/// relation `relation` of its parent step's entity, keyed on the parent step's rows.
#[derive(Clone, Copy, PartialEq, Eq, Structural, Debug)]
pub struct QueryStep {
    pub entity: usize,
    pub parent: Option<usize>,
    pub relation: usize,
    pub limit: Option<u64>,
    pub offset: u64,
}

/// The ordered steps of a request, and for each selected field the step that serves it:
/// for a scalar the step that loads its entity, for a relation the step that loads its targets.
pub struct QueryPlan {
    pub steps: Vec<QueryStep>,
    pub step_of: Vec<usize>,
}

/// The nesting position of step `s`: the relations followed from the root to reach it.
pub open spec fn step_path(steps: Seq<QueryStep>, s: int) -> Seq<usize>
    decreases s,
{
    if 0 <= s < steps.len() {
        match steps[s].parent {
            Some(q) => if 0 <= q < s {
                step_path(steps, q as int).push(steps[s].relation)
            } else {
                Seq::empty()
            },
            None => Seq::empty(),
        }
    } else {
        Seq::empty()
    }
}

/// The nesting position of selected field `i`: the relations followed from the root to the
/// entity it loads (for a scalar, the entity that declares it).
pub open spec fn node_pos(nodes: Seq<PlanNode>, i: int) -> Seq<usize>
    decreases i,
{
    if 0 <= i < nodes.len() {
        let base = match nodes[i].parent {
            Some(p) => if 0 <= p < i {
                node_pos(nodes, p as int)
            } else {
                Seq::empty()
            },
            None => Seq::empty(),
        };
        match nodes[i].selected {
            Selected::Relation { relation, .. } => base.push(relation),
            Selected::Scalar { .. } => base,
        }
    } else {
        Seq::empty()
    }
}

/// Every nesting position of a selection, the root's included.
pub open spec fn positions(nodes: Seq<PlanNode>) -> Set<Seq<usize>> {
    Set::new(
        |q: Seq<usize>|
            q == Seq::<usize>::empty() || exists|i: int| 0 <= i < nodes.len() && node_pos(nodes, i) == q,
    )
}

/// The positions of a plan's steps, in step order.
pub open spec fn step_paths(steps: Seq<QueryStep>) -> Seq<Seq<usize>> {
    Seq::new(steps.len(), |s: int| step_path(steps, s))
}

/// The entity a selected field's step loads.
pub open spec fn served_entity(n: PlanNode) -> usize {
    match n.selected {
        Selected::Relation { target, .. } => target,
        Selected::Scalar { .. } => n.entity,
    }
}

pub open spec fn step_wf(reg: Registry, steps: Seq<QueryStep>, root: usize, s: int) -> bool {
    let st = steps[s];
    &&& st.entity < reg.n_entities()
    &&& if s == 0 {
        st.parent is None && st.entity == root
    } else {
        st.parent matches Some(q) && q < s && st.relation < reg.entities@[steps[q as int].entity as int].relations@.len()
            && st.entity == reg.link(steps[q as int].entity as int, st.relation as int).target
            && (reg.relation(steps[q as int].entity as int, st.relation as int).kind == RelKind::ToOne
            ==> st.limit is None && st.offset == 0)
    }
}

impl QueryPlan {
    /// Steps are topologically ordered (each parent comes first) and each relation step
    /// follows a declared relation; `step_of` serves every field from a step that loads its entity.
    pub open spec fn wf(&self, reg: Registry, sel: SelectionPlan) -> bool {
        &&& self.steps@.len() >= 1
        &&& forall|s: int| 0 <= s < self.steps@.len() ==> #[trigger] step_wf(reg, self.steps@, sel.root, s)
        &&& self.step_of@.len() == sel.nodes@.len()
        &&& forall|j: int|
            #![trigger self.step_of@[j]]
            0 <= j < sel.nodes@.len() ==> self.step_of@[j] < self.steps@.len()
                && self.steps@[self.step_of@[j] as int].entity == served_entity(sel.nodes@[j])
                && step_path(self.steps@, self.step_of@[j] as int) == node_pos(sel.nodes@, j)
                && serves_field(self.steps@, self.step_of@, sel.nodes@, j)
                && paginated_as_first(self.steps@, self.step_of@, sel.nodes@, j)
    }
}

/// A relation step carries the pagination of the first field it serves; a later request of
/// the same relation at the same position shares that step and its pagination.
pub open spec fn paginated_as_first(steps: Seq<QueryStep>, step_of: Seq<usize>, nodes: Seq<PlanNode>, j: int) -> bool {
    (nodes[j].selected is Relation && forall|i: int| 0 <= i < j ==> step_of[i] != step_of[j]) ==> steps[step_of[j] as int].limit
        == nodes[j].limit && steps[step_of[j] as int].offset == nodes[j].offset
}

/// The step that loads the rows owning field `j`: the root step, or the step of its parent field.
pub open spec fn owner_step(step_of: Seq<usize>, nodes: Seq<PlanNode>, j: int) -> usize {
    match nodes[j].parent {
        None => 0,
        Some(p) => step_of[p as int],
    }
}

/// A scalar is read from its owner's step; a relation is loaded by a step that hangs under
/// its owner's step by that relation.
pub open spec fn serves_field(steps: Seq<QueryStep>, step_of: Seq<usize>, nodes: Seq<PlanNode>, j: int) -> bool {
    match nodes[j].selected {
        Selected::Scalar { .. } => step_of[j] == owner_step(step_of, nodes, j),
        Selected::Relation { relation, .. } => steps[step_of[j] as int].parent == Some(owner_step(step_of, nodes, j))
            && steps[step_of[j] as int].relation == relation,
    }
}

/// Some selected field is served by step `s`.
pub open spec fn served_by(step_of: Seq<usize>, s: int) -> bool {
    exists|j: int| 0 <= j < step_of.len() && step_of[j] == s
}

/// The relation step that hangs under step `parent` by relation `relation`, if there is one.
fn find_step(steps: &Vec<QueryStep>, parent: usize, relation: usize) -> (r: Option<usize>)
    ensures
        r matches Some(s) ==> 1 <= s < steps@.len() && steps@[s as int].parent == Some(parent)
            && steps@[s as int].relation == relation,
        r is None ==> forall|t: int|
            1 <= t < steps@.len() ==> !(steps@[t].parent == Some(parent) && steps@[t].relation
                == relation),
{
    let mut s: usize = 1;
    while s < steps.len()
        invariant
            1 <= s,
            forall|t: int|
                1 <= t < s && t < steps@.len() ==> !(steps@[t].parent == Some(parent)
                    && steps@[t].relation == relation),
        decreases steps@.len() - s,
    {
        if steps[s].parent == Some(parent) && steps[s].relation == relation {
            return Some(s);
        }
        s = s + 1;
    }
    None
}

/// `p` is a plan of `sel`: well formed, rooted with the given pagination, with one step
/// for each distinct nesting position of the selection.
pub open spec fn planned(reg: Registry, sel: SelectionPlan, p: QueryPlan, limit: Option<u64>, offset: u64) -> bool {
    &&& p.wf(reg, sel)
    &&& p.steps@[0] == (QueryStep { entity: sel.root, parent: None, relation: 0, limit, offset })
    &&& step_paths(p.steps@).no_duplicates()
    &&& step_paths(p.steps@).to_set() == positions(sel.nodes@)
}

/// A plan's steps are ordered as the loader needs them.
pub proof fn lemma_plan_steps_wf(reg: Registry, sel: SelectionPlan, p: QueryPlan, limit: Option<u64>, offset: u64)
    requires
        planned(reg, sel, p, limit, offset),
    ensures
        crate::loader::steps_wf(reg, p.steps@),
{
    assert forall|s: int| 0 <= s < p.steps@.len() implies #[trigger] step_wf(reg, p.steps@, p.steps@[0].entity, s) by {
        assert(step_wf(reg, p.steps@, sel.root, s));
    }
}

proof fn lemma_path_prefix(a: Seq<QueryStep>, b: Seq<QueryStep>, s: int)
    requires
        0 <= s < a.len() <= b.len(),
        forall|t: int| 0 <= t <= s ==> a[t] == b[t],
    ensures
        step_path(a, s) == step_path(b, s),
    decreases s,
{
    match a[s].parent {
        Some(q) => if 0 <= q < s {
            lemma_path_prefix(a, b, q as int);
        },
        None => {},
    }
}

/// Plans the queries for a validated selection: one step for the root, and one step per
/// distinct relation position, never one per row. A relation requested twice at the same
/// position is loaded once, with the pagination of its first request.
pub fn plan_query(reg: &Registry, sel: &SelectionPlan, limit: Option<u64>, offset: u64) -> (p: QueryPlan)
    requires
        reg.wf(),
        sel.wf(*reg),
    ensures
        planned(*reg, *sel, p, limit, offset),
{
    let mut steps: Vec<QueryStep> = Vec::new();
    steps.push(QueryStep { entity: sel.root, parent: None, relation: 0, limit, offset });
    let mut step_of: Vec<usize> = Vec::new();
    let n = sel.nodes.len();
    let mut i: usize = 0;
    while i < n
        invariant
            reg.wf(),
            sel.wf(*reg),
            n == sel.nodes@.len(),
            i <= n,
            steps@.len() >= 1,
            steps@[0] == (QueryStep { entity: sel.root, parent: None, relation: 0, limit, offset }),
            forall|s: int| 0 <= s < steps@.len() ==> #[trigger] step_wf(*reg, steps@, sel.root, s),
            step_of@.len() == i,
            forall|j: int|
                #![trigger step_of@[j]]
                0 <= j < i ==> step_of@[j] < steps@.len()
                    && steps@[step_of@[j] as int].entity == served_entity(sel.nodes@[j])
                    && step_path(steps@, step_of@[j] as int) == node_pos(sel.nodes@, j)
                    && serves_field(steps@, step_of@, sel.nodes@, j)
                    && paginated_as_first(steps@, step_of@, sel.nodes@, j),
            forall|s: int| 0 < s < steps@.len() ==> #[trigger] served_by(step_of@, s),
            forall|s: int, t: int| 0 <= s < t < steps@.len() ==> step_path(steps@, s) != step_path(steps@, t),
        decreases n - i,
    {
        let node = sel.nodes[i];
        assert(sel.node_wf(*reg, i as int));
        let os: usize = match node.parent {
            None => 0,
            Some(p) => step_of[p],
        };
        assert(step_path(steps@, os as int) == match node.parent {
            Some(p) => node_pos(sel.nodes@, p as int),
            None => Seq::<usize>::empty(),
        });
        assert(steps@[os as int].entity == node.entity);
        let ghost prev_of = step_of@;
        let ghost prev_all = steps@;
        let ghost prev_steps_len = steps@.len();
        match node.selected {
            Selected::Scalar { .. } => {
                step_of.push(os);
            },
            Selected::Relation { relation, target } => {
                let found = find_step(&steps, os, relation);
                match found {
                    Some(s) => {
                        assert(step_wf(*reg, steps@, sel.root, s as int));
                        step_of.push(s);
                    },
                    None => {
                        let ghost prev = steps@;
                        let kind = reg.entities[node.entity].relations[relation].kind;
                        let (l, o) = if kind == RelKind::ToOne {
                            (None, 0)
                        } else {
                            (node.limit, node.offset)
                        };
                        steps.push(QueryStep { entity: target, parent: Some(os), relation, limit: l, offset: o });
                        proof {
                            let last = prev.len() as int;
                            assert forall|t: int| 0 <= t < prev.len() implies step_path(prev, t) == step_path(steps@, t) by {
                                lemma_path_prefix(prev, steps@, t);
                            }
                            assert(step_path(steps@, last) == step_path(prev, os as int).push(relation));
                            assert forall|t: int| 0 <= t < last implies step_path(steps@, t) != step_path(steps@, last) by {
                                assert(step_path(steps@, t) == step_path(prev, t));
                                if t == 0 {
                                    assert(step_path(prev, 0) =~= Seq::<usize>::empty());
                                    assert(step_path(steps@, last).len() > 0);
                                } else {
                                    assert(step_wf(*reg, prev, sel.root, t));
                                    let q = prev[t].parent->0 as int;
                                    assert(step_path(prev, t) == step_path(prev, q).push(prev[t].relation));
                                    if step_path(prev, t) == step_path(prev, os as int).push(relation) {
                                        assert(step_path(prev, t).drop_last() == step_path(prev, q));
                                        assert(step_path(prev, q) == step_path(prev, os as int));
                                        assert(step_path(prev, t).last() == relation);
                                        if q < os {
                                            assert(step_path(prev, q) != step_path(prev, os as int));
                                        } else if q > os {
                                            assert(step_path(prev, os as int) != step_path(prev, q));
                                        }
                                        assert(prev[t].parent == Some(os) && prev[t].relation == relation);
                                    }
                                }
                            }
                            assert forall|a: int, b: int| 0 <= a < b < steps@.len() implies step_path(steps@, a) != step_path(steps@, b) by {
                                if b < last {
                                    assert(step_path(steps@, a) == step_path(prev, a));
                                    assert(step_path(steps@, b) == step_path(prev, b));
                                }
                            }
                            assert forall|t: int| 0 <= t < steps@.len() implies #[trigger] step_wf(*reg, steps@, sel.root, t) by {
                                if t < last {
                                    assert(step_wf(*reg, prev, sel.root, t));
                                }
                            }
                        }
                        step_of.push(steps.len() - 1);
                    },
                }
            },
        }
        proof {
            assert forall|j: int| 0 <= j <= i implies paginated_as_first(steps@, step_of@, sel.nodes@, j) by {
                assert(sel.node_wf(*reg, j));
                if j < i {
                    assert(paginated_as_first(prev_all, prev_of, sel.nodes@, j));
                    assert(step_of@[j] == prev_of[j]);
                    assert(steps@[prev_of[j] as int] == prev_all[prev_of[j] as int]);
                    if sel.nodes@[j].selected is Relation && forall|x: int| 0 <= x < j ==> step_of@[x] != step_of@[j] {
                        assert forall|x: int| 0 <= x < j implies prev_of[x] != prev_of[j] by {
                            assert(step_of@[x] == prev_of[x]);
                        }
                    }
                } else if sel.nodes@[j].selected is Relation && step_of@[j] < prev_all.len() {
                    if step_of@[j] > 0 {
                        assert(served_by(prev_of, step_of@[j] as int));
                        let x = choose|x: int| 0 <= x < prev_of.len() && prev_of[x] == step_of@[j];
                        assert(step_of@[x] == step_of@[j]);
                    }
                }
            }
            assert forall|j: int| 0 <= j <= i implies serves_field(steps@, step_of@, sel.nodes@, j) by {
                if j < i {
                    assert(prev_of[j] < prev_all.len());
                    assert(serves_field(prev_all, prev_of, sel.nodes@, j));
                    assert(step_of@[j] == prev_of[j]);
                    assert(steps@[prev_of[j] as int] == prev_all[prev_of[j] as int]);
                    assert(sel.node_wf(*reg, j));
                    if let Some(p) = sel.nodes@[j].parent {
                        assert(step_of@[p as int] == prev_of[p as int]);
                    }
                } else {
                    assert(sel.node_wf(*reg, j));
                }
            }
            assert forall|t: int| 0 < t < steps@.len() implies #[trigger] served_by(step_of@, t) by {
                if t < prev_steps_len {
                    assert(served_by(prev_of, t));
                    let j = choose|j: int| 0 <= j < prev_of.len() && prev_of[j] == t;
                    assert(step_of@[j] == t);
                } else {
                    assert(step_of@[i as int] == t);
                }
            }
            assert(step_of@[i as int] < steps@.len());
            assert(node_pos(sel.nodes@, i as int) == match node.selected {
                Selected::Relation { relation, .. } => step_path(steps@, os as int).push(relation),
                Selected::Scalar { .. } => step_path(steps@, os as int),
            });
        }
        i = i + 1;
    }
    let p = QueryPlan { steps, step_of };
    proof {
        let sp = step_paths(p.steps@);
        assert forall|a: int, b: int| 0 <= a < sp.len() && 0 <= b < sp.len() && a != b implies sp[a] != sp[b] by {
            if a < b {
                assert(step_path(p.steps@, a) != step_path(p.steps@, b));
            } else {
                assert(step_path(p.steps@, b) != step_path(p.steps@, a));
            }
        }
        assert forall|q: Seq<usize>| sp.to_set().contains(q) <==> positions(sel.nodes@).contains(q) by {
            if sp.to_set().contains(q) {
                let s = choose|s: int| 0 <= s < sp.len() && sp[s] == q;
                if s > 0 {
                    assert(served_by(p.step_of@, s));
                    let j = choose|j: int| 0 <= j < n && p.step_of@[j] == s;
                    assert(node_pos(sel.nodes@, j) == q);
                }
            }
            if positions(sel.nodes@).contains(q) {
                if q == Seq::<usize>::empty() {
                    assert(sp[0] == q);
                } else {
                    let j = choose|j: int| 0 <= j < n && node_pos(sel.nodes@, j) == q;
                    let s = p.step_of@[j] as int;
                    assert(sp[s] == q);
                }
            }
        }
        assert(sp.to_set() =~= positions(sel.nodes@));
    }
    p
}

/// No N+1: for any selection tree, the plan has exactly as many query steps as the tree
/// has distinct nesting positions, whatever the row counts. A position (the path of
/// relations from the root) determines the entity type loaded there, so this is also the
/// number of distinct (entity type, position) pairs.
pub proof fn lemma_step_count(reg: Registry, sel: SelectionPlan, p: QueryPlan, limit: Option<u64>, offset: u64)
    requires
        planned(reg, sel, p, limit, offset),
    ensures
        p.steps@.len() == positions(sel.nodes@).len(),
{
    step_paths(p.steps@).unique_seq_to_set();
}

} // verus!
