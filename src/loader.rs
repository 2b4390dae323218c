use vstd::prelude::*;
use crate::planner::{step_wf, QueryStep};
use crate::registry::{Registry, RelKind};
use crate::value::{conforms, duplicate_row, row_conforms, rows_view, same_value, Value};

verus! {

/// A predicate on one column: equal (or, with `equal == false`, not equal) to `value`.
pub struct Condition {
    pub column: usize,
    pub value: Value,
    pub equal: bool,
}

/// A rule that the request context installs on root listings of one entity. Rows reached
/// through a relation from another root are not subject to it.
pub enum PolicyRule {
    /// Root listings of `entity` keep only the rows where `condition` holds.
    Filter { entity: usize, condition: Condition },
    /// Root listings of `entity` are refused.
    Deny { entity: usize },
}

/// The rows of one entity as storage holds them, and the next key it will hand out.
pub struct Table {
    pub rows: Vec<Vec<Value>>,
    pub next_id: i64,
}

/// Storage: `tables[e]` holds the rows of entity `e`.
pub struct Store {
    pub tables: Vec<Table>,
}

/// How a parent row is linked to the rows of a relation step.
#[derive(Debug, PartialEq, Eq)]
pub enum Attached {
    /// A to-one field: the index of the related row, or none.
    One(Option<usize>),
    /// A to-many field: the indices of all related rows, possibly none.
    Many(Vec<usize>),
}

/// The rows loaded by one step, and for a relation step one link per row of its parent step.
pub struct StepResult {
    pub rows: Vec<Vec<Value>>,
    pub links: Vec<Attached>,
}

/// Why loading a request failed.
#[derive(Clone, Copy, PartialEq, Eq, Structural, Debug)]
pub enum LoadError {
    /// Row `row` of step `step` does not decode against its entity's fields.
    DataLoad { step: usize, row: usize },
}

pub open spec fn cond_holds(c: Condition, row: Seq<Value>) -> bool {
    c.column < row.len() && same_value(row[c.column as int], c.value) == c.equal
}

/// A row passes the caller's conditions and every policy rule installed for entity `e`.
pub open spec fn admitted(conds: Seq<Condition>, policy: Seq<PolicyRule>, e: int, row: Seq<Value>) -> bool {
    &&& forall|i: int| 0 <= i < conds.len() ==> cond_holds(#[trigger] conds[i], row)
    &&& forall|k: int|
        0 <= k < policy.len() ==> match #[trigger] policy[k] {
            PolicyRule::Filter { entity, condition } => entity == e ==> cond_holds(condition, row),
            PolicyRule::Deny { .. } => true,
        }
}

/// Some rule refuses root listings of entity `e`.
pub open spec fn denied(policy: Seq<PolicyRule>, e: int) -> bool {
    exists|k: int| 0 <= k < policy.len() && #[trigger] policy[k] == (PolicyRule::Deny { entity: e as usize }) && e >= 0
}

/// The first `n` rows that are admitted, in storage order.
pub open spec fn root_match(rows: Seq<Seq<Value>>, conds: Seq<Condition>, policy: Seq<PolicyRule>, e: int, n: int) -> Seq<Seq<Value>>
    decreases n,
{
    if n <= 0 {
        Seq::empty()
    } else {
        let prev = root_match(rows, conds, policy, e, n - 1);
        if admitted(conds, policy, e, rows[n - 1]) {
            prev.push(rows[n - 1])
        } else {
            prev
        }
    }
}

/// The integer keys found in column `col` of the given rows; nulls give none.
pub open spec fn key_set(rows: Seq<Seq<Value>>, col: int) -> Set<i64> {
    Set::new(|k: i64| exists|p: int| 0 <= p < rows.len() && col < rows[p].len() && rows[p][col] == Value::Int(k))
}

pub open spec fn key_hit(row: Seq<Value>, col: int, keys: Set<i64>) -> bool {
    0 <= col < row.len() && (row[col] matches Value::Int(k) && keys.contains(k))
}

/// The first `n` rows whose column `col` holds one of `keys`, in storage order.
pub open spec fn keyed_match(rows: Seq<Seq<Value>>, col: int, keys: Set<i64>, n: int) -> Seq<Seq<Value>>
    decreases n,
{
    if n <= 0 {
        Seq::empty()
    } else {
        let prev = keyed_match(rows, col, keys, n - 1);
        if key_hit(rows[n - 1], col, keys) {
            prev.push(rows[n - 1])
        } else {
            prev
        }
    }
}

/// `offset` rows skipped, then at most `limit` rows kept.
pub open spec fn paginate(s: Seq<Seq<Value>>, limit: Option<u64>, offset: u64) -> Seq<Seq<Value>> {
    let lo = if offset < s.len() { offset as int } else { s.len() as int };
    let hi = match limit {
        Some(l) => if lo + l < s.len() { lo + l } else { s.len() as int },
        None => s.len() as int,
    };
    s.subrange(lo, hi)
}

/// The indices of the first `n` children whose column `col` holds the integer `v`.
pub open spec fn matching(children: Seq<Seq<Value>>, col: int, v: Value, n: int) -> Seq<usize>
    decreases n,
{
    if n <= 0 {
        Seq::empty()
    } else {
        let prev = matching(children, col, v, n - 1);
        if v is Int && 0 <= col < children[n - 1].len() && children[n - 1][col] == v {
            prev.push((n - 1) as usize)
        } else {
            prev
        }
    }
}

/// The column of the parent rows and the column of the child rows that a relation joins on.
pub open spec fn join_columns(kind: RelKind, fk: int) -> (int, int) {
    if kind == RelKind::ToMany {
        (0, fk)
    } else {
        (fk, 0)
    }
}

/// How a parent row must be linked to the child rows of a relation of kind `kind`.
pub open spec fn attached_ok(a: Attached, kind: RelKind, parent: Seq<Value>, pcol: int, children: Seq<Seq<Value>>, ccol: int) -> bool {
    let v = if 0 <= pcol < parent.len() { parent[pcol] } else { Value::Null };
    let m = matching(children, ccol, v, children.len() as int);
    if kind == RelKind::ToMany {
        a matches Attached::Many(ix) && ix@ == m
    } else {
        a matches Attached::One(o) && o == (if m.len() > 0 { Some(m[0]) } else { None::<usize> })
    }
}

impl Store {
    pub open spec fn wf(&self, reg: Registry) -> bool {
        self.tables@.len() == reg.n_entities()
    }

    pub open spec fn rows(&self, e: int) -> Seq<Seq<Value>> {
        rows_view(self.tables@[e].rows@)
    }
}

/// The relation that step `s` follows, as (kind, parent column, child column).
pub open spec fn step_join(reg: Registry, steps: Seq<QueryStep>, s: int) -> (RelKind, int, int) {
    let q = steps[s].parent->0 as int;
    let pe = steps[q].entity as int;
    let k = steps[s].relation as int;
    let kind = reg.relation(pe, k).kind;
    let cols = join_columns(kind, reg.link(pe, k).fk as int);
    (kind, cols.0, cols.1)
}

/// The rows that step `s` loads: for the root step the admitted rows, for a relation step
/// the rows joined to the rows its parent step loaded; then paginated.
pub open spec fn expected_rows(reg: Registry, store: Store, steps: Seq<QueryStep>, conds: Seq<Condition>, policy: Seq<PolicyRule>, s: int) -> Seq<Seq<Value>>
    decreases s,
{
    if s <= 0 || s >= steps.len() {
        let rows = store.rows(steps[0].entity as int);
        paginate(root_match(rows, conds, policy, steps[0].entity as int, rows.len() as int), steps[0].limit, steps[0].offset)
    } else {
        let st = steps[s];
        let rows = store.rows(st.entity as int);
        let q = st.parent->0 as int;
        let parents = if 0 <= q < s { expected_rows(reg, store, steps, conds, policy, q) } else { Seq::empty() };
        let j = step_join(reg, steps, s);
        paginate(keyed_match(rows, j.2, key_set(parents, j.1), rows.len() as int), st.limit, st.offset)
    }
}

fn cond_check(c: &Condition, row: &Vec<Value>) -> (r: bool)
    ensures
        r == cond_holds(*c, row@),
{
    c.column < row.len() && row[c.column].same_as(&c.value) == c.equal
}

fn admits(conds: &Vec<Condition>, policy: &Vec<PolicyRule>, e: usize, row: &Vec<Value>) -> (r: bool)
    ensures
        r == admitted(conds@, policy@, e as int, row@),
{
    let mut i: usize = 0;
    while i < conds.len()
        invariant
            i <= conds@.len(),
            forall|x: int| 0 <= x < i ==> cond_holds(#[trigger] conds@[x], row@),
        decreases conds@.len() - i,
    {
        if !cond_check(&conds[i], row) {
            return false;
        }
        i = i + 1;
    }
    let mut k: usize = 0;
    while k < policy.len()
        invariant
            k <= policy@.len(),
            forall|x: int| 0 <= x < conds@.len() ==> cond_holds(#[trigger] conds@[x], row@),
            forall|x: int| 0 <= x < k ==> match #[trigger] policy@[x] {
                PolicyRule::Filter { entity, condition } => entity == e ==> cond_holds(condition, row@),
                PolicyRule::Deny { .. } => true,
            },
        decreases policy@.len() - k,
    {
        if let PolicyRule::Filter { entity, condition } = &policy[k] {
            if *entity == e && !cond_check(condition, row) {
                return false;
            }
        }
        k = k + 1;
    }
    true
}

fn select_root(rows: &Vec<Vec<Value>>, conds: &Vec<Condition>, policy: &Vec<PolicyRule>, e: usize) -> (r: Vec<Vec<Value>>)
    ensures
        rows_view(r@) == root_match(rows_view(rows@), conds@, policy@, e as int, rows@.len() as int),
{
    let ghost all = rows_view(rows@);
    let mut out: Vec<Vec<Value>> = Vec::new();
    let mut i: usize = 0;
    while i < rows.len()
        invariant
            i <= rows@.len(),
            all == rows_view(rows@),
            rows_view(out@) == root_match(all, conds@, policy@, e as int, i as int),
        decreases rows@.len() - i,
    {
        if admits(conds, policy, e, &rows[i]) {
            let ghost before = out@;
            out.push(duplicate_row(&rows[i]));
            assert(rows_view(out@) =~= rows_view(before).push(all[i as int]));
        }
        i = i + 1;
    }
    out
}

fn collect_keys(parents: &Vec<Vec<Value>>, col: usize) -> (keys: Vec<i64>)
    ensures
        keys@.to_set() == key_set(rows_view(parents@), col as int),
        keys@.no_duplicates(),
{
    let ghost pv = rows_view(parents@);
    let mut keys: Vec<i64> = Vec::new();
    let mut p: usize = 0;
    while p < parents.len()
        invariant
            p <= parents@.len(),
            pv == rows_view(parents@),
            keys@.no_duplicates(),
            forall|k: i64| keys@.contains(k) <==> exists|x: int| 0 <= x < p && col < pv[x].len() && pv[x][col as int] == Value::Int(k),
        decreases parents@.len() - p,
    {
        let ghost old_keys = keys@;
        assert(pv[p as int] == parents@[p as int]@);
        if col < parents[p].len() {
            if let Value::Int(k) = parents[p][col] {
                if !contains_key(&keys, k) {
                    keys.push(k);
                    assert(keys@.last() == k);
                }
                assert(keys@.contains(k));
            }
        }
        assert forall|k: i64| keys@.contains(k) <==> exists|x: int| 0 <= x < p + 1 && col < pv[x].len() && pv[x][col as int] == Value::Int(k) by {
            if keys@.contains(k) && !old_keys.contains(k) {
                assert(pv[p as int][col as int] == Value::Int(k));
            }
            if exists|x: int| 0 <= x < p + 1 && col < pv[x].len() && pv[x][col as int] == Value::Int(k) {
                let x = choose|x: int| 0 <= x < p + 1 && col < pv[x].len() && pv[x][col as int] == Value::Int(k);
                if x < p {
                    assert(old_keys.contains(k));
                    let y = choose|y: int| 0 <= y < old_keys.len() && old_keys[y] == k;
                    assert(keys@[y] == k);
                }
            }
        }
        p = p + 1;
    }
    assert(keys@.to_set() =~= key_set(pv, col as int));
    keys
}

fn contains_key(keys: &Vec<i64>, k: i64) -> (r: bool)
    ensures
        r == keys@.contains(k),
{
    let mut i: usize = 0;
    while i < keys.len()
        invariant
            i <= keys@.len(),
            forall|x: int| 0 <= x < i ==> keys@[x] != k,
        decreases keys@.len() - i,
    {
        if keys[i] == k {
            return true;
        }
        i = i + 1;
    }
    false
}

fn select_keyed(rows: &Vec<Vec<Value>>, col: usize, keys: &Vec<i64>) -> (r: Vec<Vec<Value>>)
    ensures
        rows_view(r@) == keyed_match(rows_view(rows@), col as int, keys@.to_set(), rows@.len() as int),
{
    let ghost all = rows_view(rows@);
    let mut out: Vec<Vec<Value>> = Vec::new();
    let mut i: usize = 0;
    while i < rows.len()
        invariant
            i <= rows@.len(),
            all == rows_view(rows@),
            rows_view(out@) == keyed_match(all, col as int, keys@.to_set(), i as int),
        decreases rows@.len() - i,
    {
        let hit = col < rows[i].len() && match rows[i][col] {
            Value::Int(k) => contains_key(keys, k),
            _ => false,
        };
        assert(hit == key_hit(all[i as int], col as int, keys@.to_set()));
        if hit {
            let ghost before = out@;
            out.push(duplicate_row(&rows[i]));
            assert(rows_view(out@) =~= rows_view(before).push(all[i as int]));
        }
        i = i + 1;
    }
    out
}

fn paginate_rows(rows: Vec<Vec<Value>>, limit: Option<u64>, offset: u64) -> (r: Vec<Vec<Value>>)
    ensures
        rows_view(r@) == paginate(rows_view(rows@), limit, offset),
{
    let n = rows.len();
    let lo: usize = if (offset as u128) < (n as u128) { offset as usize } else { n };
    let hi: usize = match limit {
        Some(l) => if (lo as u128) + (l as u128) < (n as u128) { lo + l as usize } else { n },
        None => n,
    };
    let ghost all = rows_view(rows@);
    let mut out: Vec<Vec<Value>> = Vec::new();
    let mut i: usize = lo;
    while i < hi
        invariant
            lo <= i <= hi <= n,
            n == rows@.len(),
            all == rows_view(rows@),
            rows_view(out@) == all.subrange(lo as int, i as int),
        decreases hi - i,
    {
        let ghost before = out@;
        out.push(duplicate_row(&rows[i]));
        assert(rows_view(out@) =~= rows_view(before).push(all[i as int]));
        assert(all.subrange(lo as int, i + 1) =~= all.subrange(lo as int, i as int).push(all[i as int]));
        i = i + 1;
    }
    assert(rows_view(out@) =~= paginate(all, limit, offset));
    out
}

fn matching_children(children: &Vec<Vec<Value>>, col: usize, v: &Value) -> (r: Vec<usize>)
    ensures
        r@ == matching(rows_view(children@), col as int, *v, children@.len() as int),
{
    let ghost cv = rows_view(children@);
    let mut out: Vec<usize> = Vec::new();
    let is_int = match v {
        Value::Int(_) => true,
        _ => false,
    };
    let mut j: usize = 0;
    while j < children.len()
        invariant
            j <= children@.len(),
            cv == rows_view(children@),
            is_int == (*v is Int),
            out@ == matching(cv, col as int, *v, j as int),
        decreases children@.len() - j,
    {
        if is_int && col < children[j].len() && children[j][col].same_as(v) {
            out.push(j);
        }
        j = j + 1;
    }
    out
}

/// Links each parent row to the child rows it joins.
fn attach(parents: &Vec<Vec<Value>>, pcol: usize, children: &Vec<Vec<Value>>, ccol: usize, kind: RelKind) -> (r: Vec<Attached>)
    ensures
        r@.len() == parents@.len(),
        forall|p: int| 0 <= p < parents@.len() ==> attached_ok(#[trigger] r@[p], kind, parents@[p]@, pcol as int, rows_view(children@), ccol as int),
{
    let mut out: Vec<Attached> = Vec::new();
    let mut p: usize = 0;
    while p < parents.len()
        invariant
            p <= parents@.len(),
            out@.len() == p,
            forall|x: int| 0 <= x < p ==> attached_ok(#[trigger] out@[x], kind, parents@[x]@, pcol as int, rows_view(children@), ccol as int),
        decreases parents@.len() - p,
    {
        let v = if pcol < parents[p].len() { parents[p][pcol].duplicate() } else { Value::Null };
        let m = matching_children(children, ccol, &v);
        let a = if kind == RelKind::ToMany {
            Attached::Many(m)
        } else if m.len() > 0 {
            Attached::One(Some(m[0]))
        } else {
            Attached::One(None)
        };
        out.push(a);
        p = p + 1;
    }
    out
}

/// Steps as the planner orders them: step 0 lists the root entity, every other step follows
/// a declared relation from an earlier step.
pub open spec fn steps_wf(reg: Registry, steps: Seq<QueryStep>) -> bool {
    &&& steps.len() >= 1
    &&& forall|s: int| 0 <= s < steps.len() ==> #[trigger] step_wf(reg, steps, steps[0].entity, s)
}

/// Step `s` of `res` holds what the request owes for that step: the expected rows, all of
/// them decoded, and for a relation step one link per parent row.
pub open spec fn step_loaded(reg: Registry, store: Store, steps: Seq<QueryStep>, conds: Seq<Condition>, policy: Seq<PolicyRule>, res: Seq<StepResult>, s: int) -> bool {
    let rows = expected_rows(reg, store, steps, conds, policy, s);
    &&& rows_view(res[s].rows@) == rows
    &&& forall|j: int| 0 <= j < rows.len() ==> conforms(reg.fields(steps[s].entity as int), #[trigger] rows[j])
    &&& if s == 0 {
        res[s].links@.len() == 0
    } else {
        let q = steps[s].parent->0 as int;
        let parents = expected_rows(reg, store, steps, conds, policy, q);
        let j = step_join(reg, steps, s);
        &&& res[s].links@.len() == parents.len()
        &&& forall|p: int| 0 <= p < parents.len() ==> attached_ok(#[trigger] res[s].links@[p], j.0, parents[p], j.1, rows, j.2)
    }
}

/// Runs the steps in order against storage and stitches each relation step onto its parent.
/// Any row that does not decode aborts the whole load.
pub fn load(reg: &Registry, store: &Store, steps: &Vec<QueryStep>, conds: &Vec<Condition>, policy: &Vec<PolicyRule>) -> (r: Result<Vec<StepResult>, LoadError>)
    requires
        reg.wf(),
        store.wf(*reg),
        steps_wf(*reg, steps@),
    ensures
        r matches Ok(res) ==> res@.len() == steps@.len() && forall|s: int|
            0 <= s < steps@.len() ==> step_loaded(*reg, *store, steps@, conds@, policy@, res@, s),
        r matches Err(LoadError::DataLoad { step, row }) ==> step < steps@.len() && row
            < expected_rows(*reg, *store, steps@, conds@, policy@, step as int).len() && !conforms(
            reg.fields(steps@[step as int].entity as int),
            expected_rows(*reg, *store, steps@, conds@, policy@, step as int)[row as int],
        ),
{
    let mut results: Vec<StepResult> = Vec::new();
    let mut s: usize = 0;
    while s < steps.len()
        invariant
            reg.wf(),
            store.wf(*reg),
            steps_wf(*reg, steps@),
            s <= steps@.len(),
            results@.len() == s,
            forall|x: int| 0 <= x < s ==> step_loaded(*reg, *store, steps@, conds@, policy@, results@, x),
        decreases steps@.len() - s,
    {
        let st = steps[s];
        assert(step_wf(*reg, steps@, steps@[0].entity, s as int));
        let ghost want = expected_rows(*reg, *store, steps@, conds@, policy@, s as int);
        let table = &store.tables[st.entity].rows;
        let mut pcol: usize = 0;
        let mut ccol: usize = 0;
        let mut kind = RelKind::ToMany;
        let selected = if s == 0 {
            select_root(table, conds, policy, st.entity)
        } else {
            let q = st.parent.unwrap();
            let pe = steps[q].entity;
            assert(step_wf(*reg, steps@, steps@[0].entity, q as int));
            assert(reg.links@[pe as int]@.len() == reg.entities@[pe as int].relations@.len());
            let link = reg.links[pe][st.relation];
            assert(reg.link(pe as int, st.relation as int) == link);
            kind = reg.entities[pe].relations[st.relation].kind;
            if kind == RelKind::ToMany {
                ccol = link.fk;
            } else {
                pcol = link.fk;
            }
            assert(step_loaded(*reg, *store, steps@, conds@, policy@, results@, q as int));
            let keys = collect_keys(&results[q].rows, pcol);
            select_keyed(table, ccol, &keys)
        };
        let rows = paginate_rows(selected, st.limit, st.offset);
        assert(rows_view(rows@) == want);
        let mut j: usize = 0;
        while j < rows.len()
            invariant
                j <= rows@.len(),
                rows_view(rows@) == want,
                want == expected_rows(*reg, *store, steps@, conds@, policy@, s as int),
                s < steps@.len(),
                st == steps@[s as int],
                st.entity < reg.entities@.len(),
                forall|x: int| 0 <= x < j ==> conforms(reg.fields(steps@[s as int].entity as int), #[trigger] want[x]),
                reg.entities@[st.entity as int].fields@ == reg.fields(steps@[s as int].entity as int),
            decreases rows@.len() - j,
        {
            assert(want[j as int] == rows@[j as int]@);
            if !row_conforms(&reg.entities[st.entity].fields, &rows[j]) {
                return Err(LoadError::DataLoad { step: s, row: j });
            }
            j = j + 1;
        }
        let links = if s == 0 {
            Vec::new()
        } else {
            let q = st.parent.unwrap();
            attach(&results[q].rows, pcol, &rows, ccol, kind)
        };
        let ghost prev = results@;
        results.push(StepResult { rows, links });
        proof {
            assert forall|x: int| 0 <= x < s + 1 implies step_loaded(*reg, *store, steps@, conds@, policy@, results@, x) by {
                if x < s {
                    assert(step_loaded(*reg, *store, steps@, conds@, policy@, prev, x));
                    assert(results@[x] == prev[x]);
                }
            }
        }
        s = s + 1;
    }
    Ok(results)
}

proof fn lemma_matching_empty(children: Seq<Seq<Value>>, col: int, v: Value, n: int)
    requires
        n <= children.len(),
        forall|j: int| 0 <= j < n ==> !(0 <= col < children[j].len() && children[j][col] == v),
    ensures
        matching(children, col, v, n).len() == 0,
    decreases n,
{
    if n > 0 {
        lemma_matching_empty(children, col, v, n - 1);
    }
}

/// A to-many field whose parent row has no matching child resolves to an empty list: a
/// `Many` link with no index, neither an absent value nor an error.
pub proof fn lemma_to_many_without_children(
    reg: Registry,
    store: Store,
    steps: Seq<QueryStep>,
    conds: Seq<Condition>,
    policy: Seq<PolicyRule>,
    res: Seq<StepResult>,
    s: int,
    p: int,
)
    requires
        0 < s < steps.len(),
        res.len() == steps.len(),
        step_loaded(reg, store, steps, conds, policy, res, s),
        step_join(reg, steps, s).0 == RelKind::ToMany,
        0 <= p < expected_rows(reg, store, steps, conds, policy, steps[s].parent->0 as int).len(),
        ({
            let parent = expected_rows(reg, store, steps, conds, policy, steps[s].parent->0 as int)[p];
            let children = expected_rows(reg, store, steps, conds, policy, s);
            let j = step_join(reg, steps, s);
            forall|c: int| 0 <= c < children.len() ==> !(0 <= j.2 < children[c].len() && 0 <= j.1 < parent.len() && children[c][j.2] == parent[j.1])
        }),
    ensures
        res[s].links@[p] matches Attached::Many(ix) && ix@.len() == 0,
{
    let parent = expected_rows(reg, store, steps, conds, policy, steps[s].parent->0 as int)[p];
    let children = expected_rows(reg, store, steps, conds, policy, s);
    let j = step_join(reg, steps, s);
    let v = if 0 <= j.1 < parent.len() { parent[j.1] } else { Value::Null };
    assert(attached_ok(res[s].links@[p], j.0, parent, j.1, children, j.2));
    if 0 <= j.1 < parent.len() {
        lemma_matching_empty(children, j.2, v, children.len() as int);
    } else {
        lemma_matching_null(children, j.2, children.len() as int);
    }
}

proof fn lemma_matching_null(children: Seq<Seq<Value>>, col: int, n: int)
    ensures
        matching(children, col, Value::Null, n).len() == 0,
    decreases n,
{
    if n > 0 {
        lemma_matching_null(children, col, n - 1);
    }
}

/// A nullable to-one field whose foreign key is null resolves to no value, and that parent
/// row contributes no key to the step that loads the relation: the keys are those of the
/// other parent rows.
pub proof fn lemma_null_to_one(
    reg: Registry,
    store: Store,
    steps: Seq<QueryStep>,
    conds: Seq<Condition>,
    policy: Seq<PolicyRule>,
    res: Seq<StepResult>,
    s: int,
    p: int,
)
    requires
        0 < s < steps.len(),
        res.len() == steps.len(),
        step_loaded(reg, store, steps, conds, policy, res, s),
        step_join(reg, steps, s).0 == RelKind::ToOne,
        0 <= p < expected_rows(reg, store, steps, conds, policy, steps[s].parent->0 as int).len(),
        ({
            let parent = expected_rows(reg, store, steps, conds, policy, steps[s].parent->0 as int)[p];
            let pcol = step_join(reg, steps, s).1;
            0 <= pcol < parent.len() && parent[pcol] is Null
        }),
    ensures
        res[s].links@[p] matches Attached::One(None),
        ({
            let parents = expected_rows(reg, store, steps, conds, policy, steps[s].parent->0 as int);
            let pcol = step_join(reg, steps, s).1;
            key_set(parents, pcol) == key_set(parents.remove(p), pcol)
        }),
{
    let parents = expected_rows(reg, store, steps, conds, policy, steps[s].parent->0 as int);
    let children = expected_rows(reg, store, steps, conds, policy, s);
    let j = step_join(reg, steps, s);
    assert(attached_ok(res[s].links@[p], j.0, parents[p], j.1, children, j.2));
    lemma_matching_null(children, j.2, children.len() as int);
    let rest = parents.remove(p);
    assert forall|k: i64| key_set(parents, j.1).contains(k) <==> key_set(rest, j.1).contains(k) by {
        if key_set(parents, j.1).contains(k) {
            let x = choose|x: int| 0 <= x < parents.len() && j.1 < parents[x].len() && parents[x][j.1] == Value::Int(k);
            if x < p {
                assert(rest[x] == parents[x]);
            } else {
                assert(x != p);
                assert(rest[x - 1] == parents[x]);
            }
        }
        if key_set(rest, j.1).contains(k) {
            let x = choose|x: int| 0 <= x < rest.len() && j.1 < rest[x].len() && rest[x][j.1] == Value::Int(k);
            if x < p {
                assert(rest[x] == parents[x]);
            } else {
                assert(rest[x] == parents[x + 1]);
            }
        }
    }
    assert(key_set(parents, j.1) =~= key_set(rest, j.1));
}

/// Whether some rule refuses root listings of entity `e`.
pub fn denies(policy: &Vec<PolicyRule>, e: usize) -> (r: bool)
    ensures
        r == denied(policy@, e as int),
{
    let mut k: usize = 0;
    while k < policy.len()
        invariant
            k <= policy@.len(),
            forall|x: int| 0 <= x < k ==> policy@[x] != (PolicyRule::Deny { entity: e }),
        decreases policy@.len() - k,
    {
        if let PolicyRule::Deny { entity } = &policy[k] {
            if *entity == e {
                assert(policy@[k as int] == (PolicyRule::Deny { entity: e }));
                return true;
            }
        }
        k = k + 1;
    }
    false
}

/// Every stored row of every entity decodes against its fields.
pub open spec fn store_conforms(reg: Registry, store: Store) -> bool {
    forall|e: int, j: int|
        0 <= e < reg.n_entities() && 0 <= j < store.rows(e).len() ==> conforms(reg.fields(e), #[trigger] store.rows(e)[j])
}

/// `x` is one of the rows of `rows`.
pub open spec fn stored_in(rows: Seq<Seq<Value>>, x: Seq<Value>) -> bool {
    exists|j: int| 0 <= j < rows.len() && rows[j] == x
}

proof fn lemma_root_match_stored(rows: Seq<Seq<Value>>, conds: Seq<Condition>, policy: Seq<PolicyRule>, e: int, n: int)
    requires
        n <= rows.len(),
    ensures
        forall|i: int| 0 <= i < root_match(rows, conds, policy, e, n).len() ==> stored_in(rows, #[trigger] root_match(rows, conds, policy, e, n)[i]),
    decreases n,
{
    if n > 0 {
        lemma_root_match_stored(rows, conds, policy, e, n - 1);
        let prev = root_match(rows, conds, policy, e, n - 1);
        let cur = root_match(rows, conds, policy, e, n);
        assert forall|i: int| 0 <= i < cur.len() implies stored_in(rows, #[trigger] cur[i]) by {
            if i < prev.len() {
                assert(cur[i] == prev[i]);
            } else {
                assert(rows[n - 1] == cur[i]);
            }
        }
    }
}

proof fn lemma_keyed_match_stored(rows: Seq<Seq<Value>>, col: int, keys: Set<i64>, n: int)
    requires
        n <= rows.len(),
    ensures
        forall|i: int| 0 <= i < keyed_match(rows, col, keys, n).len() ==> stored_in(rows, #[trigger] keyed_match(rows, col, keys, n)[i]),
    decreases n,
{
    if n > 0 {
        lemma_keyed_match_stored(rows, col, keys, n - 1);
        let prev = keyed_match(rows, col, keys, n - 1);
        let cur = keyed_match(rows, col, keys, n);
        assert forall|i: int| 0 <= i < cur.len() implies stored_in(rows, #[trigger] cur[i]) by {
            if i < prev.len() {
                assert(cur[i] == prev[i]);
            } else {
                assert(rows[n - 1] == cur[i]);
            }
        }
    }
}

/// Every row a step loads is a stored row of the step's entity.
pub proof fn lemma_expected_stored(reg: Registry, store: Store, steps: Seq<QueryStep>, conds: Seq<Condition>, policy: Seq<PolicyRule>, s: int, i: int)
    requires
        0 <= s < steps.len(),
        0 <= i < expected_rows(reg, store, steps, conds, policy, s).len(),
    ensures
        stored_in(store.rows(steps[s].entity as int), expected_rows(reg, store, steps, conds, policy, s)[i]),
{
    let rows = store.rows(steps[s].entity as int);
    if s == 0 {
        let m = root_match(rows, conds, policy, steps[0].entity as int, rows.len() as int);
        lemma_root_match_stored(rows, conds, policy, steps[0].entity as int, rows.len() as int);
        let p = paginate(m, steps[0].limit, steps[0].offset);
        let lo = if steps[0].offset < m.len() { steps[0].offset as int } else { m.len() as int };
        assert(p[i] == m[lo + i]);
    } else {
        let st = steps[s];
        let q = st.parent->0 as int;
        let parents = if 0 <= q < s { expected_rows(reg, store, steps, conds, policy, q) } else { Seq::empty() };
        let j = step_join(reg, steps, s);
        let m = keyed_match(rows, j.2, key_set(parents, j.1), rows.len() as int);
        lemma_keyed_match_stored(rows, j.2, key_set(parents, j.1), rows.len() as int);
        let p = paginate(m, st.limit, st.offset);
        let lo = if st.offset < m.len() { st.offset as int } else { m.len() as int };
        assert(p[i] == m[lo + i]);
    }
}

} // verus!
