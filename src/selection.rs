use vstd::prelude::*;
use crate::registry::{Registry, RelKind};

verus! {

/// One requested field. A request is a list of these in preorder: `parent` is the index of
/// the relation field under which this one is nested, or `None` for a field of the root entity.
pub struct FieldRequest {
    pub parent: Option<usize>,
    pub name: String,
    pub limit: Option<u64>,
    pub offset: Option<u64>,
}

/// What a validated field refers to.
#[derive(Clone, Copy, PartialEq, Eq, Structural, Debug)]
pub enum Selected {
    /// Column `column` of the owning entity.
    Scalar { column: usize },
    /// Relation `relation` of the owning entity, leading to entity `target`.
    Relation { relation: usize, target: usize },
}

/// One validated field of a selection.
#[derive(Clone, Copy, PartialEq, Eq, Structural, Debug)]
pub struct PlanNode {
    pub parent: Option<usize>,
    /// The entity that declares this field.
    pub entity: usize,
    pub selected: Selected,
    pub limit: Option<u64>,
    pub offset: u64,
}

/// A request validated against the registry, rooted at entity `root`.
pub struct SelectionPlan {
    pub root: usize,
    pub nodes: Vec<PlanNode>,
}

/// Why a request is malformed.
#[derive(Clone, Copy, PartialEq, Eq, Structural, Debug)]
pub enum SelectionError {
    /// The field at this position is not declared on its entity.
    FieldNotFound { node: usize },
    /// The field at this position has a bad parent link, or pagination on a field that is
    /// not a to-many relation.
    Argument { node: usize },
}

/// Index of the relation of entity `e` named `name`, if any.
pub open spec fn rel_named(reg: Registry, e: int, name: Seq<char>) -> Option<int> {
    if exists|k: int| 0 <= k < reg.entities@[e].relations@.len() && reg.relation(e, k).name@ == name {
        Some(choose|k: int| 0 <= k < reg.entities@[e].relations@.len() && reg.relation(e, k).name@ == name)
    } else {
        None
    }
}

pub open spec fn has_field_named(reg: Registry, e: int, name: Seq<char>) -> bool {
    exists|c: int| 0 <= c < reg.fields(e).len() && reg.fields(e)[c].name@ == name
}

/// The entity that declares field `i` of the request, if the chain of parents leads to one.
pub open spec fn node_owner(reg: Registry, root: int, req: Seq<FieldRequest>, i: int) -> Option<int>
    decreases i,
{
    if i < 0 || i >= req.len() {
        None
    } else {
        match req[i].parent {
            None => Some(root),
            Some(p) => {
                if p < i {
                    match node_owner(reg, root, req, p as int) {
                        Some(e) => match rel_named(reg, e, req[p as int].name@) {
                            Some(k) => Some(reg.link(e, k).target as int),
                            None => None,
                        },
                        None => None,
                    }
                } else {
                    None
                }
            },
        }
    }
}

pub open spec fn has_pagination(f: FieldRequest) -> bool {
    f.limit is Some || f.offset is Some
}

/// Field `i` of the request is well formed.
pub open spec fn node_valid(reg: Registry, root: int, req: Seq<FieldRequest>, i: int) -> bool {
    match node_owner(reg, root, req, i) {
        None => false,
        Some(e) => match rel_named(reg, e, req[i].name@) {
            Some(k) => reg.relation(e, k).kind == RelKind::ToMany || !has_pagination(req[i]),
            None => has_field_named(reg, e, req[i].name@) && !has_pagination(req[i]),
        },
    }
}

pub open spec fn request_valid(reg: Registry, root: int, req: Seq<FieldRequest>) -> bool {
    forall|i: int| 0 <= i < req.len() ==> node_valid(reg, root, req, i)
}

/// Node `i` of `plan` is the validated form of field `i` of `req`.
pub open spec fn node_matches(reg: Registry, req: Seq<FieldRequest>, plan: Seq<PlanNode>, root: int, i: int) -> bool {
    let n = plan[i];
    let f = req[i];
    &&& n.parent == f.parent
    &&& Some(n.entity as int) == node_owner(reg, root, req, i)
    &&& n.offset == (match f.offset { Some(o) => o, None => 0 })
    &&& n.limit == f.limit
    &&& match n.selected {
        Selected::Scalar { column } => column < reg.fields(n.entity as int).len()
            && reg.fields(n.entity as int)[column as int].name@ == f.name@
            && rel_named(reg, n.entity as int, f.name@) is None
            && !has_pagination(f),
        Selected::Relation { relation, target } => Some(relation as int) == rel_named(
            reg,
            n.entity as int,
            f.name@,
        ) && target == reg.link(n.entity as int, relation as int).target,
    }
}

impl SelectionPlan {
    /// The plan is a valid selection tree over `reg`: every parent comes earlier and is a
    /// relation leading to the entity of its children.
    pub open spec fn wf(&self, reg: Registry) -> bool {
        &&& self.root < reg.n_entities()
        &&& forall|i: int| 0 <= i < self.nodes@.len() ==> #[trigger] self.node_wf(reg, i)
    }

    pub open spec fn node_wf(&self, reg: Registry, i: int) -> bool {
        node_wf_in(reg, self.root, self.nodes@, i)
    }
}

/// What each error of `parse_selection` says of the request.
pub open spec fn selection_error_ok(reg: Registry, root: int, req: Seq<FieldRequest>, e: SelectionError) -> bool {
    match e {
        SelectionError::FieldNotFound { node } => node < req.len() && (node_owner(reg, root, req, node as int) matches Some(o)
            && rel_named(reg, o, req[node as int].name@) is None && !has_field_named(reg, o, req[node as int].name@)),
        SelectionError::Argument { node } => node < req.len() && !node_valid(reg, root, req, node as int),
    }
}

/// Validates a request rooted at entity `root` against the registry.
pub fn parse_selection(reg: &Registry, root: usize, req: &Vec<FieldRequest>) -> (r: Result<
    SelectionPlan,
    SelectionError,
>)
    requires
        reg.wf(),
        root < reg.n_entities(),
    ensures
        r is Ok <==> request_valid(*reg, root as int, req@),
        r matches Ok(plan) ==> plan.root == root && plan.wf(*reg) && plan.nodes@.len()
            == req@.len() && forall|i: int|
            0 <= i < req@.len() ==> node_matches(*reg, req@, plan.nodes@, root as int, i),
        r matches Err(e) ==> selection_error_ok(*reg, root as int, req@, e),
{
    let mut nodes: Vec<PlanNode> = Vec::new();
    let mut i: usize = 0;
    while i < req.len()
        invariant
            reg.wf(),
            root < reg.n_entities(),
            i <= req@.len(),
            nodes@.len() == i,
            forall|j: int| 0 <= j < i ==> node_valid(*reg, root as int, req@, j),
            forall|j: int| 0 <= j < i ==> #[trigger] node_matches(*reg, req@, nodes@, root as int, j),
            forall|j: int| 0 <= j < i ==> #[trigger] node_wf_in(*reg, root, nodes@, j),
        decreases req@.len() - i,
    {
        let f = &req[i];
        let entity: usize = match f.parent {
            None => root,
            Some(p) => {
                if p >= i {
                    assert(!node_valid(*reg, root as int, req@, i as int));
                    return Err(SelectionError::Argument { node: i });
                }
                assert(node_matches(*reg, req@, nodes@, root as int, p as int));
                match nodes[p].selected {
                    Selected::Scalar { .. } => {
                        assert(!node_valid(*reg, root as int, req@, i as int));
                    return Err(SelectionError::Argument { node: i });
                    },
                    Selected::Relation { target, .. } => {
                        assert(node_wf_in(*reg, root, nodes@, p as int));
                        target
                    },
                }
            },
        };
        assert(node_owner(*reg, root as int, req@, i as int) == Some(entity as int));
        let pag = f.limit.is_some() || f.offset.is_some();
        let offset: u64 = match f.offset {
            Some(o) => o,
            None => 0,
        };
        let sel = match reg.relation_named(entity, &f.name) {
            Some(k) => {
                proof {
                    lemma_rel_named(*reg, entity as int, k as int);
                }
                if pag && reg.entities[entity].relations[k].kind != RelKind::ToMany {
                    assert(!node_valid(*reg, root as int, req@, i as int));
                    return Err(SelectionError::Argument { node: i });
                }
                Selected::Relation { relation: k, target: reg.links[entity][k].target }
            },
            None => {
                assert(rel_named(*reg, entity as int, f.name@) is None);
                match reg.field_named(entity, &f.name) {
                    None => {
                        assert(!node_valid(*reg, root as int, req@, i as int));
                        return Err(SelectionError::FieldNotFound { node: i });
                    },
                    Some(c) => {
                        if pag {
                            assert(!node_valid(*reg, root as int, req@, i as int));
                    return Err(SelectionError::Argument { node: i });
                        }
                        Selected::Scalar { column: c }
                    },
                }
            },
        };
        let ghost prev = nodes@;
        nodes.push(PlanNode { parent: f.parent, entity, selected: sel, limit: f.limit, offset });
        proof {
            assert forall|j: int| 0 <= j < i implies node_matches(
                *reg,
                req@,
                nodes@,
                root as int,
                j,
            ) && #[trigger] node_wf_in(*reg, root, nodes@, j) by {
                assert(node_wf_in(*reg, root, prev, j));
                assert(node_matches(*reg, req@, prev, root as int, j));
                assert(prev[j] == nodes@[j]);
            }
            assert(node_wf_in(*reg, root, nodes@, i as int));
            assert(node_matches(*reg, req@, nodes@, root as int, i as int));
            assert forall|j: int| 0 <= j <= i implies #[trigger] node_matches(
                *reg,
                req@,
                nodes@,
                root as int,
                j,
            ) by {
                if j < i {
                    assert(node_matches(*reg, req@, prev, root as int, j));
                    assert(prev[j] == nodes@[j]);
                }
            }
        }
        i = i + 1;
    }
    let plan = SelectionPlan { root, nodes };
    proof {
        assert forall|j: int| 0 <= j < plan.nodes@.len() implies #[trigger] plan.node_wf(*reg, j) by {
            assert(node_wf_in(*reg, root, plan.nodes@, j));
        }
    }
    Ok(plan)
}

/// `SelectionPlan::node_wf` over a bare sequence of nodes.
pub open spec fn node_wf_in(reg: Registry, root: usize, nodes: Seq<PlanNode>, i: int) -> bool {
    {
        let n = nodes[i];
        &&& n.entity < reg.n_entities()
        &&& match n.parent {
            None => n.entity == root,
            Some(p) => p < i && (nodes[p as int].selected matches Selected::Relation {
                target,
                ..
            } && target == n.entity),
        }
        &&& match n.selected {
            Selected::Scalar { column } => column < reg.fields(n.entity as int).len()
                && n.limit is None && n.offset == 0,
            Selected::Relation { relation, target } => relation
                < reg.entities@[n.entity as int].relations@.len() && target == reg.link(
                n.entity as int,
                relation as int,
            ).target && (reg.relation(n.entity as int, relation as int).kind == RelKind::ToOne
                ==> n.limit is None && n.offset == 0),
        }
    }
}

proof fn lemma_rel_named(reg: Registry, e: int, k: int)
    requires
        reg.wf(),
        0 <= e < reg.n_entities(),
        0 <= k < reg.entities@[e].relations@.len(),
    ensures
        rel_named(reg, e, reg.relation(e, k).name@) == Some(k),
{
    let name = reg.relation(e, k).name@;
    assert(crate::registry::entity_ok(reg.entities@, e));
    let k2 = choose|k2: int| 0 <= k2 < reg.entities@[e].relations@.len() && reg.relation(e, k2).name@ == name;
    assert(k2 == k);
}

} // verus!
