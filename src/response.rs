use vstd::prelude::*;
use crate::loader::{
    attached_ok, expected_rows, matching, step_join, step_loaded, steps_wf, Attached, Condition, PolicyRule,
    StepResult, Store,
};
use crate::planner::{step_wf, QueryPlan, QueryStep};
use crate::registry::Registry;
use crate::selection::{PlanNode, Selected, SelectionPlan};
use crate::value::{conforms, rows_view, Value};

verus! {

/// The value of one field of a response object.
#[derive(Debug, PartialEq, Eq)]
pub enum Out {
    Scalar(Value),
    /// A to-one field: the related object, or null.
    One(Option<Box<Obj>>),
    /// A to-many field: always a list, possibly empty.
    Many(Vec<Obj>),
}

/// One named field of a response object.
#[derive(Debug, PartialEq, Eq)]
pub struct Member {
    pub name: String,
    pub value: Out,
}

/// One object of the response, its fields in request order.
#[derive(Debug, PartialEq, Eq)]
pub struct Obj {
    pub members: Vec<Member>,
}

pub open spec fn pos(parent: Option<usize>) -> int {
    match parent {
        None => -1,
        Some(p) => p as int,
    }
}

/// A field's parent link points at position `p` (-1 for the root).
pub open spec fn parent_is(link: Option<usize>, p: int) -> bool {
    pos(link) == p
}

/// The fields among the first `n` that are nested directly under position `parent`, in
/// request order.
pub open spec fn child_nodes(nodes: Seq<PlanNode>, parent: int, n: int) -> Seq<int>
    decreases n,
{
    if n <= 0 {
        Seq::empty()
    } else {
        let prev = child_nodes(nodes, parent, n - 1);
        if parent_is(nodes[n - 1].parent, parent) {
            prev.push(n - 1)
        } else {
            prev
        }
    }
}

/// The declared name of a selected field.
pub open spec fn member_name(reg: Registry, n: PlanNode) -> Seq<char> {
    match n.selected {
        Selected::Scalar { column } => reg.fields(n.entity as int)[column as int].name@,
        Selected::Relation { relation, .. } => reg.relation(n.entity as int, relation as int).name@,
    }
}

/// `obj` shows row `r` of step `s` with the fields nested under position `parent`.
pub open spec fn renders(
    reg: Registry,
    nodes: Seq<PlanNode>,
    step_of: Seq<usize>,
    res: Seq<StepResult>,
    parent: int,
    s: int,
    r: int,
    obj: Obj,
) -> bool
    decreases nodes.len() - parent, 1int,
{
    members_ok(reg, nodes, step_of, res, parent, s, r, obj.members@, child_nodes(nodes, parent, nodes.len() as int))
}

/// `members` show row `r` of step `s` for the fields `kids`, one for one: a scalar as the
/// row's value, a to-one field as the linked object or null, a to-many field as the list
/// of linked objects.
pub open spec fn members_ok(
    reg: Registry,
    nodes: Seq<PlanNode>,
    step_of: Seq<usize>,
    res: Seq<StepResult>,
    parent: int,
    s: int,
    r: int,
    members: Seq<Member>,
    kids: Seq<int>,
) -> bool
    decreases nodes.len() - parent, 0int,
{
    &&& members.len() == kids.len()
    &&& forall|k: int|
        #![trigger members[k]]
        0 <= k < kids.len() ==> {
            let j = kids[k];
            let m = members[k];
            &&& parent < j < nodes.len()
            &&& m.name@ == member_name(reg, nodes[j])
            &&& match nodes[j].selected {
                Selected::Scalar { column } => match m.value {
                    Out::Scalar(v) => 0 <= r < res[s].rows@.len() && column < res[s].rows@[r]@.len() && v
                        == res[s].rows@[r]@[column as int],
                    _ => false,
                },
                Selected::Relation { .. } => {
                    let t = step_of[j] as int;
                    match res[t].links@[r] {
                        Attached::One(Some(c)) => match m.value {
                            Out::One(Some(b)) => renders(reg, nodes, step_of, res, j, t, c as int, *b),
                            _ => false,
                        },
                        Attached::One(None) => m.value matches Out::One(None),
                        Attached::Many(ix) => match m.value {
                            Out::Many(v) => v@.len() == ix@.len() && forall|q: int|
                                0 <= q < ix@.len() ==> renders(
                                    reg,
                                    nodes,
                                    step_of,
                                    res,
                                    j,
                                    t,
                                    ix@[q] as int,
                                    #[trigger] v@[q],
                                ),
                            _ => false,
                        },
                    }
                },
            }
        }
}

pub open spec fn link_in_range(a: Attached, n: int) -> bool {
    match a {
        Attached::One(Some(c)) => c < n,
        Attached::One(None) => true,
        Attached::Many(ix) => forall|q: int| 0 <= q < ix@.len() ==> #[trigger] ix@[q] < n,
    }
}

/// Loaded steps fit their plan: rows have one value per column, and each relation step has
/// one link per parent row, pointing at its own rows.
pub open spec fn results_wf(reg: Registry, steps: Seq<QueryStep>, res: Seq<StepResult>) -> bool {
    &&& res.len() == steps.len()
    &&& forall|t: int, r: int|
        0 <= t < res.len() && 0 <= r < res[t].rows@.len() ==> #[trigger] res[t].rows@[r]@.len()
            == reg.fields(steps[t].entity as int).len()
    &&& forall|t: int| 0 < t < res.len() ==> #[trigger] links_wf(steps, res, t)
}

/// Relation step `t` has one link per row of its parent step, each pointing at its own rows.
pub open spec fn links_wf(steps: Seq<QueryStep>, res: Seq<StepResult>, t: int) -> bool {
    &&& steps[t].parent is Some
    &&& steps[t].parent->0 < res.len()
    &&& res[t].links@.len() == res[steps[t].parent->0 as int].rows@.len()
    &&& forall|r: int|
        0 <= r < res[t].links@.len() ==> link_in_range(#[trigger] res[t].links@[r], res[t].rows@.len() as int)
}

pub open spec fn render_ctx(reg: Registry, sel: SelectionPlan, plan: QueryPlan, res: Seq<StepResult>) -> bool {
    &&& reg.wf()
    &&& sel.wf(reg)
    &&& plan.wf(reg, sel)
    &&& results_wf(reg, plan.steps@, res)
}

/// The step whose rows the fields under `parent` are read from.
pub open spec fn parent_step(step_of: Seq<usize>, parent: Option<usize>) -> int {
    match parent {
        None => 0,
        Some(p) => step_of[p as int] as int,
    }
}

/// Builds the object for row `r` of step `s` with the fields nested under `parent`.
pub fn render(reg: &Registry, sel: &SelectionPlan, plan: &QueryPlan, res: &Vec<StepResult>, parent: Option<usize>, s: usize, r: usize) -> (o: Obj)
    requires
        render_ctx(*reg, *sel, *plan, res@),
        parent matches Some(p) ==> p < sel.nodes@.len() && sel.nodes@[p as int].selected is Relation,
        s == parent_step(plan.step_of@, parent),
        r < res@[s as int].rows@.len(),
    ensures
        renders(*reg, sel.nodes@, plan.step_of@, res@, pos(parent), s as int, r as int, o),
    decreases sel.nodes@.len() - pos(parent),
{
    let ghost nodes = sel.nodes@;
    let n = sel.nodes.len();
    let start: usize = match parent {
        None => 0,
        Some(p) => p + 1,
    };
    proof {
        lemma_no_early_children(*reg, *sel, parent, start as int);
    }
    let mut members: Vec<Member> = Vec::new();
    let mut j: usize = start;
    while j < n
        invariant
            render_ctx(*reg, *sel, *plan, res@),
            parent matches Some(p) ==> p < sel.nodes@.len() && sel.nodes@[p as int].selected is Relation,
            s == parent_step(plan.step_of@, parent),
            r < res@[s as int].rows@.len(),
            n == nodes.len(),
            nodes == sel.nodes@,
            pos(parent) < start <= j <= n,
            members_ok(*reg, nodes, plan.step_of@, res@, pos(parent), s as int, r as int, members@, child_nodes(nodes, pos(parent), j as int)),
        decreases n - j,
    {
        let ghost before = members@;
        let ghost kids = child_nodes(nodes, pos(parent), j as int);
        if sel.nodes[j].parent == parent {
            let nd = sel.nodes[j];
            assert(sel.node_wf(*reg, j as int));
            assert(plan.step_of@[j as int] < plan.steps@.len());
            let member = match nd.selected {
                Selected::Scalar { column } => {
                    assert(crate::planner::serves_field(plan.steps@, plan.step_of@, nodes, j as int));
                    assert(res@[s as int].rows@[r as int]@.len() == reg.fields(plan.steps@[s as int].entity as int).len());
                    Member { name: reg.entities[nd.entity].fields[column].name.clone(), value: Out::Scalar(res[s].rows[r][column].duplicate()) }
                },
                Selected::Relation { relation, .. } => {
                    let t = plan.step_of[j];
                    assert(crate::planner::serves_field(plan.steps@, plan.step_of@, nodes, j as int));
                    assert(crate::planner::step_wf(*reg, plan.steps@, sel.root, t as int));
                    assert(t > 0);
                    assert(links_wf(plan.steps@, res@, t as int));
                    assert(res@[t as int].links@.len() == res@[s as int].rows@.len());
                    assert(link_in_range(res@[t as int].links@[r as int], res@[t as int].rows@.len() as int));
                    let name = reg.entities[nd.entity].relations[relation].name.clone();
                    let value = match &res[t].links[r] {
                        Attached::One(Some(c)) => Out::One(Some(Box::new(render(reg, sel, plan, res, Some(j), t, *c)))),
                        Attached::One(None) => Out::One(None),
                        Attached::Many(ix) => {
                            let mut objs: Vec<Obj> = Vec::new();
                            let mut q: usize = 0;
                            while q < ix.len()
                                invariant
                                    render_ctx(*reg, *sel, *plan, res@),
                                    j < nodes.len(),
                                    nodes == sel.nodes@,
                                    nodes[j as int].selected is Relation,
                                    t == parent_step(plan.step_of@, Some(j)),
                                    pos(parent) < j,
                                    q <= ix@.len(),
                                    objs@.len() == q,
                                    forall|x: int| 0 <= x < ix@.len() ==> #[trigger] ix@[x] < res@[t as int].rows@.len(),
                                    forall|x: int| 0 <= x < q ==> renders(*reg, nodes, plan.step_of@, res@, j as int, t as int, ix@[x] as int, #[trigger] objs@[x]),
                                decreases ix@.len() - q,
                            {
                                let o = render(reg, sel, plan, res, Some(j), t, ix[q]);
                                objs.push(o);
                                q = q + 1;
                            }
                            Out::Many(objs)
                        },
                    };
                    Member { name, value }
                },
            };
            members.push(member);
            proof {
                assert(child_nodes(nodes, pos(parent), j + 1) == kids.push(j as int));
                assert forall|k: int| 0 <= k < kids.len() implies #[trigger] members@[k] == before[k] by {}
            }
        }
        j = j + 1;
    }
    Obj { members }
}

proof fn lemma_no_early_children(reg: Registry, sel: SelectionPlan, parent: Option<usize>, start: int)
    requires
        sel.wf(reg),
        start == pos(parent) + 1,
        parent matches Some(p) ==> p < sel.nodes@.len(),
    ensures
        child_nodes(sel.nodes@, pos(parent), start) == Seq::<int>::empty(),
{
    lemma_children_prefix(reg, sel, parent, start);
}

proof fn lemma_children_prefix(reg: Registry, sel: SelectionPlan, parent: Option<usize>, n: int)
    requires
        sel.wf(reg),
        n <= pos(parent) + 1,
        parent matches Some(p) ==> p < sel.nodes@.len(),
    ensures
        child_nodes(sel.nodes@, pos(parent), n) == Seq::<int>::empty(),
    decreases n,
{
    if n > 0 {
        lemma_children_prefix(reg, sel, parent, n - 1);
        assert(sel.node_wf(reg, n - 1));
    }
}

proof fn lemma_matching_bound(children: Seq<Seq<Value>>, col: int, v: Value, n: int)
    ensures
        forall|q: int| 0 <= q < matching(children, col, v, n).len() ==> #[trigger] matching(children, col, v, n)[q] < n,
    decreases n,
{
    if n > 0 {
        lemma_matching_bound(children, col, v, n - 1);
        let m = matching(children, col, v, n);
        let prev = matching(children, col, v, n - 1);
        assert forall|q: int| 0 <= q < m.len() implies #[trigger] m[q] < n by {
            if q < prev.len() {
                assert(m[q] == prev[q]);
            }
        }
    }
}

/// What `load` returns fits its plan.
pub proof fn lemma_loaded_results_wf(
    reg: Registry,
    store: Store,
    steps: Seq<QueryStep>,
    conds: Seq<Condition>,
    policy: Seq<PolicyRule>,
    res: Seq<StepResult>,
)
    requires
        steps_wf(reg, steps),
        res.len() == steps.len(),
        forall|s: int| 0 <= s < steps.len() ==> step_loaded(reg, store, steps, conds, policy, res, s),
    ensures
        results_wf(reg, steps, res),
{
    assert forall|t: int, r: int| 0 <= t < res.len() && 0 <= r < res[t].rows@.len() implies #[trigger] res[t].rows@[r]@.len()
        == reg.fields(steps[t].entity as int).len() by {
        assert(step_loaded(reg, store, steps, conds, policy, res, t));
        let rows = expected_rows(reg, store, steps, conds, policy, t);
        assert(rows_view(res[t].rows@)[r] == res[t].rows@[r]@);
        assert(conforms(reg.fields(steps[t].entity as int), rows[r]));
    }
    assert forall|t: int| 0 < t < res.len() implies #[trigger] links_wf(steps, res, t) by {
        assert(step_wf(reg, steps, steps[0].entity, t));
        let q = steps[t].parent->0 as int;
        assert(step_loaded(reg, store, steps, conds, policy, res, t));
        assert(step_loaded(reg, store, steps, conds, policy, res, q));
        let children = expected_rows(reg, store, steps, conds, policy, t);
        let parents = expected_rows(reg, store, steps, conds, policy, q);
        let j = step_join(reg, steps, t);
        assert(res[q].rows@.len() == parents.len());
        assert(res[t].rows@.len() == children.len());
        assert forall|r: int| 0 <= r < res[t].links@.len() implies link_in_range(#[trigger] res[t].links@[r], res[t].rows@.len() as int) by {
            assert(attached_ok(res[t].links@[r], j.0, parents[r], j.1, children, j.2));
            let v = if 0 <= j.1 < parents[r].len() { parents[r][j.1] } else { Value::Null };
            lemma_matching_bound(children, j.2, v, children.len() as int);
            let m = matching(children, j.2, v, children.len() as int);
            if m.len() > 0 {
                assert(m[0] < children.len());
            }
        }
    }
}

} // verus!
