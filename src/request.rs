use vstd::prelude::*;
use crate::loader::{denied, denies, expected_rows, lemma_expected_stored, load, store_conforms, step_loaded, Condition, LoadError, PolicyRule, StepResult, Store};
use crate::planner::{plan_query, planned, QueryPlan, QueryStep};
use crate::registry::Registry;
use crate::value::conforms;
use crate::response::{lemma_loaded_results_wf, render, render_ctx, renders, Obj};
use crate::selection::{node_matches, parse_selection, request_valid, selection_error_ok, FieldRequest, SelectionError, SelectionPlan};

verus! {

/// Why a query request failed.
#[derive(Clone, Copy, PartialEq, Eq, Structural, Debug)]
pub enum QueryError {
    Selection(SelectionError),
    /// The request context refuses root listings of the root entity.
    Denied,
    Load(LoadError),
}

/// The answer to a query: the validated selection, its plan, what each step loaded, and one
/// object per root row that nests the loaded rows as the selection asks.
pub struct Response {
    pub selection: SelectionPlan,
    pub plan: QueryPlan,
    pub steps: Vec<StepResult>,
    pub data: Vec<Obj>,
}

/// `sel` is the validated form of `req`, rooted at `root`, node for node.
pub open spec fn selection_of(reg: Registry, root: int, req: Seq<FieldRequest>, sel: SelectionPlan) -> bool {
    &&& sel.root == root
    &&& sel.wf(reg)
    &&& sel.nodes@.len() == req.len()
    &&& forall|i: int| 0 <= i < req.len() ==> node_matches(reg, req, sel.nodes@, root, i)
}

/// Every row that the steps load decodes against its entity's fields.
pub open spec fn plan_decodes(reg: Registry, store: Store, steps: Seq<QueryStep>, conds: Seq<Condition>, policy: Seq<PolicyRule>) -> bool {
    forall|s: int, i: int|
        0 <= s < steps.len() && 0 <= i < expected_rows(reg, store, steps, conds, policy, s).len() ==> conforms(
            reg.fields(steps[s].entity as int),
            #[trigger] expected_rows(reg, store, steps, conds, policy, s)[i],
        )
}

/// The error names a row that the steps load and that does not decode.
pub open spec fn load_fails_at(reg: Registry, store: Store, steps: Seq<QueryStep>, conds: Seq<Condition>, policy: Seq<PolicyRule>, e: LoadError) -> bool {
    match e {
        LoadError::DataLoad { step, row } => step < steps.len() && row < expected_rows(reg, store, steps, conds, policy, step as int).len()
            && !conforms(reg.fields(steps[step as int].entity as int), expected_rows(reg, store, steps, conds, policy, step as int)[row as int]),
    }
}

/// Answers a query rooted at entity `root`: validates the request, plans it, and loads every
/// step. `conds` filter the root listing; `policy` adds the context's rules for root listings.
pub fn run_query(
    reg: &Registry,
    store: &Store,
    root: usize,
    req: &Vec<FieldRequest>,
    limit: Option<u64>,
    offset: u64,
    conds: &Vec<Condition>,
    policy: &Vec<PolicyRule>,
) -> (r: Result<Response, QueryError>)
    requires
        reg.wf(),
        store.wf(*reg),
        root < reg.n_entities(),
    ensures
        !request_valid(*reg, root as int, req@) <==> r matches Err(QueryError::Selection(_)),
        r matches Err(QueryError::Selection(e)) ==> selection_error_ok(*reg, root as int, req@, e),
        r matches Ok(resp) ==> selection_of(*reg, root as int, req@, resp.selection)
            && planned(*reg, resp.selection, resp.plan, limit, offset)
            && resp.steps@.len() == resp.plan.steps@.len()
            && (forall|s: int| 0 <= s < resp.plan.steps@.len() ==> step_loaded(*reg, *store, resp.plan.steps@, conds@, policy@, resp.steps@, s))
            && resp.data@.len() == resp.steps@[0].rows@.len()
            && forall|i: int| 0 <= i < resp.data@.len() ==> renders(*reg, resp.selection.nodes@, resp.plan.step_of@, resp.steps@, -1, 0, i, #[trigger] resp.data@[i]),
        (r is Err && r->Err_0 is Denied) <==> request_valid(*reg, root as int, req@) && denied(policy@, root as int),
        (r is Ok || r->Err_0 is Load) ==> request_valid(*reg, root as int, req@) && !denied(policy@, root as int),
        (r is Ok || r->Err_0 is Load) ==> exists|sel: SelectionPlan, p: QueryPlan|
            selection_of(*reg, root as int, req@, sel) && #[trigger] planned(*reg, sel, p, limit, offset)
            && (r is Ok <==> plan_decodes(*reg, *store, p.steps@, conds@, policy@))
            && (r is Err ==> load_fails_at(*reg, *store, p.steps@, conds@, policy@, r->Err_0->Load_0)),
        request_valid(*reg, root as int, req@) && !denied(policy@, root as int) && store_conforms(*reg, *store) ==> r is Ok,
{
    let sel = match parse_selection(reg, root, req) {
        Ok(sel) => sel,
        Err(e) => {
            return Err(QueryError::Selection(e));
        },
    };
    if denies(policy, root) {
        return Err(QueryError::Denied);
    }
    let plan = plan_query(reg, &sel, limit, offset);
    proof {
        crate::planner::lemma_plan_steps_wf(*reg, sel, plan, limit, offset);
    }
    let steps = match load(reg, store, &plan.steps, conds, policy) {
        Ok(steps) => steps,
        Err(e) => {
            proof {
                let LoadError::DataLoad { step, row } = e;
                crate::planner::lemma_plan_steps_wf(*reg, sel, plan, limit, offset);
                let ent = plan.steps@[step as int].entity as int;
                assert(crate::planner::step_wf(*reg, plan.steps@, plan.steps@[0].entity, step as int));
                lemma_expected_stored(*reg, *store, plan.steps@, conds@, policy@, step as int, row as int);
                let x = expected_rows(*reg, *store, plan.steps@, conds@, policy@, step as int)[row as int];
                let j = choose|j: int| 0 <= j < store.rows(ent).len() && store.rows(ent)[j] == x;
                assert(!conforms(reg.fields(ent), store.rows(ent)[j]));
                assert(load_fails_at(*reg, *store, plan.steps@, conds@, policy@, e));
                assert(!plan_decodes(*reg, *store, plan.steps@, conds@, policy@));
                assert(selection_of(*reg, root as int, req@, sel));
                assert(planned(*reg, sel, plan, limit, offset));
            }
            return Err(QueryError::Load(e));
        },
    };
    proof {
        lemma_loaded_results_wf(*reg, *store, plan.steps@, conds@, policy@, steps@);
    }
    let mut data: Vec<Obj> = Vec::new();
    let mut i: usize = 0;
    while i < steps[0].rows.len()
        invariant
            render_ctx(*reg, sel, plan, steps@),
            steps@.len() >= 1,
            i <= steps@[0].rows@.len(),
            data@.len() == i,
            forall|x: int| 0 <= x < i ==> renders(*reg, sel.nodes@, plan.step_of@, steps@, -1, 0, x, #[trigger] data@[x]),
        decreases steps@[0].rows@.len() - i,
    {
        data.push(render(reg, &sel, &plan, &steps, None, 0, i));
        i = i + 1;
    }
    proof {
        assert forall|s: int, x: int|
            0 <= s < plan.steps@.len() && 0 <= x < expected_rows(*reg, *store, plan.steps@, conds@, policy@, s).len() implies conforms(
                reg.fields(plan.steps@[s].entity as int),
                #[trigger] expected_rows(*reg, *store, plan.steps@, conds@, policy@, s)[x],
            ) by {
            assert(step_loaded(*reg, *store, plan.steps@, conds@, policy@, steps@, s));
        }
        assert(selection_of(*reg, root as int, req@, sel));
        assert(planned(*reg, sel, plan, limit, offset));
    }
    Ok(Response { selection: sel, plan, steps, data })
}

} // verus!
