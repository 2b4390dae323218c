use vstd::prelude::*;
use crate::loader::{admitted, cond_holds, expected_rows, paginate, root_match, Condition, Store, Table};
use crate::planner::QueryStep;
use crate::registry::{Registry, RelKind};
use crate::value::{conforms, duplicate_row, row_conforms, value_fits, Value};

verus! {

/// Why a mutation was refused. Every refusal leaves storage untouched.
#[derive(Clone, Copy, PartialEq, Eq, Structural, Debug)]
pub enum MutationError {
    /// The payload has no value for this column.
    MissingField { column: usize },
    /// The payload has more values than the entity has columns.
    UnexpectedField,
    /// The value for this column has the wrong type, or is null where the column is not nullable.
    InvalidValue { column: usize },
    /// No row has the given primary key.
    NotFound,
    /// The foreign key of this to-one relation names no row of its target.
    ReferentialIntegrity { relation: usize },
    /// Storage has no key left to hand out.
    KeysExhausted,
}

impl Store {
    /// Empty storage for every entity of the registry; keys start at 1.
    pub fn new(reg: &Registry) -> (r: Store)
        requires
            reg.wf(),
        ensures
            r.keys_wf(*reg),
            forall|e: int| 0 <= e < reg.n_entities() ==> #[trigger] r.tables@[e].rows@.len() == 0 && r.tables@[e].next_id == 1,
    {
        let mut tables: Vec<Table> = Vec::new();
        let mut e: usize = 0;
        while e < reg.entities.len()
            invariant
                e <= reg.entities@.len(),
                tables@.len() == e,
                forall|x: int| 0 <= x < e ==> #[trigger] tables@[x].rows@.len() == 0 && tables@[x].next_id == 1,
            decreases reg.entities@.len() - e,
        {
            tables.push(Table { rows: Vec::new(), next_id: 1 });
            e = e + 1;
        }
        let r = Store { tables };
        assert forall|x: int| 0 <= x < reg.n_entities() implies #[trigger] table_wf(r.tables@[x], reg.fields(x).len() as int) by {
            assert(r.tables@[x].rows@.len() == 0);
        }
        r
    }

    /// Every row has one value per column and a distinct integer key below `next_id`.
    pub open spec fn keys_wf(&self, reg: Registry) -> bool {
        &&& self.wf(reg)
        &&& forall|e: int| 0 <= e < reg.n_entities() ==> #[trigger] table_wf(self.tables@[e], reg.fields(e).len() as int)
    }
}

pub open spec fn row_key(row: Seq<Value>) -> i64 {
    match row[0] {
        Value::Int(k) => k,
        _ => 0,
    }
}

pub open spec fn table_wf(t: Table, n_fields: int) -> bool {
    &&& t.next_id >= 1
    &&& forall|j: int| #![trigger t.rows@[j]] 0 <= j < t.rows@.len() ==> t.rows@[j]@.len() == n_fields && t.rows@[j]@[0] is Int && row_key(t.rows@[j]@) < t.next_id
    &&& forall|a: int, b: int| 0 <= a < b < t.rows@.len() ==> row_key(t.rows@[a]@) != row_key(t.rows@[b]@)
}

/// The foreign key of every to-one relation of entity `e` is null or names a row of its target.
pub open spec fn refs_ok(reg: Registry, store: Store, e: int, row: Seq<Value>) -> bool {
    forall|k: int| 0 <= k < reg.entities@[e].relations@.len() && #[trigger] reg.relation(e, k).kind == RelKind::ToOne ==> ref_ok(reg, store, e, k, row)
}

pub open spec fn ref_ok(reg: Registry, store: Store, e: int, k: int, row: Seq<Value>) -> bool {
    let l = reg.link(e, k);
    row[l.fk as int] is Null || exists|j: int| 0 <= j < store.rows(l.target as int).len() && store.rows(l.target as int)[j].len() > 0 && store.rows(l.target as int)[j][0] == row[l.fk as int]
}

/// The payload of an insert gives one value for each column after the key.
pub open spec fn insert_payload_ok(reg: Registry, e: int, payload: Seq<Value>) -> bool {
    &&& payload.len() + 1 == reg.fields(e).len()
    &&& forall|c: int| 0 <= c < payload.len() ==> value_fits(reg.fields(e)[c + 1], #[trigger] payload[c])
}

fn check_ref(reg: &Registry, store: &Store, e: usize, k: usize, row: &Vec<Value>) -> (r: bool)
    requires
        reg.wf(),
        store.wf(*reg),
        e < reg.n_entities(),
        k < reg.entities@[e as int].relations@.len(),
        reg.relation(e as int, k as int).kind == RelKind::ToOne,
        conforms(reg.fields(e as int), row@),
    ensures
        r == ref_ok(*reg, *store, e as int, k as int, row@),
{
    assert(reg.links@[e as int]@.len() == reg.entities@[e as int].relations@.len());
    let l = reg.links[e][k];
    assert(reg.link(e as int, k as int) == l);
    assert(crate::registry::link_resolves(reg.entities@, e as int, k as int, l));
    assert(value_fits(reg.fields(e as int)[l.fk as int], row@[l.fk as int]));
    let v = &row[l.fk];
    if let Value::Null = v {
        return true;
    }
    let rows = &store.tables[l.target].rows;
    let mut j: usize = 0;
    while j < rows.len()
        invariant
            j <= rows@.len(),
            rows@ == store.tables@[l.target as int].rows@,
            *v is Int,
            l.fk < row@.len(),
            *v == row@[l.fk as int],
            l == reg.link(e as int, k as int),
            forall|x: int| 0 <= x < j ==> !(store.rows(l.target as int)[x].len() > 0 && store.rows(l.target as int)[x][0] == *v),
        decreases rows@.len() - j,
    {
        assert(store.rows(l.target as int)[j as int] == rows@[j as int]@);
        if rows[j].len() > 0 && rows[j][0].same_as(v) {
            assert(store.rows(l.target as int)[j as int][0] == *v);
            assert(*v == row@[l.fk as int]);
            assert(0 <= j < store.rows(l.target as int).len() && store.rows(l.target as int)[j as int].len() > 0 && store.rows(l.target as int)[j as int][0] == row@[l.fk as int]);
            return true;
        }
        j = j + 1;
    }
    false
}

/// Checks every to-one foreign key of a row of entity `e`; on failure, the first relation
/// whose key names no row.
fn check_refs(reg: &Registry, store: &Store, e: usize, row: &Vec<Value>) -> (r: Option<usize>)
    requires
        reg.wf(),
        store.wf(*reg),
        e < reg.n_entities(),
        conforms(reg.fields(e as int), row@),
    ensures
        r is None <==> refs_ok(*reg, *store, e as int, row@),
        r matches Some(k) ==> k < reg.entities@[e as int].relations@.len() && reg.relation(e as int, k as int).kind == RelKind::ToOne && !ref_ok(*reg, *store, e as int, k as int, row@),
{
    let nr = reg.entities[e].relations.len();
    let mut k: usize = 0;
    while k < nr
        invariant
            reg.wf(),
            store.wf(*reg),
            e < reg.n_entities(),
            conforms(reg.fields(e as int), row@),
            nr == reg.entities@[e as int].relations@.len(),
            k <= nr,
            forall|x: int| 0 <= x < k && #[trigger] reg.relation(e as int, x).kind == RelKind::ToOne ==> ref_ok(*reg, *store, e as int, x, row@),
        decreases nr - k,
    {
        if reg.entities[e].relations[k].kind == RelKind::ToOne && !check_ref(reg, store, e, k, row) {
            return Some(k);
        }
        k = k + 1;
    }
    None
}

/// The first column whose value does not fit, starting at column `from` of the fields.
fn first_misfit(reg: &Registry, e: usize, payload: &Vec<Value>, from: usize) -> (r: Option<usize>)
    requires
        reg.wf(),
        e < reg.n_entities(),
        payload@.len() + from == reg.fields(e as int).len(),
        from <= 1,
    ensures
        r is None <==> forall|c: int| 0 <= c < payload@.len() ==> value_fits(reg.fields(e as int)[c + from], #[trigger] payload@[c]),
        r matches Some(c) ==> c < payload@.len() && !value_fits(reg.fields(e as int)[c + from], payload@[c as int]),
{
    let fields = &reg.entities[e].fields;
    let mut c: usize = 0;
    while c < payload.len()
        invariant
            fields@ == reg.fields(e as int),
            payload@.len() + from == fields@.len(),
            from <= 1,
            c <= payload@.len(),
            forall|x: int| 0 <= x < c ==> value_fits(fields@[x + from], #[trigger] payload@[x]),
        decreases payload@.len() - c,
    {
        let f = &fields[c + from];
        let ok = match &payload[c] {
            Value::Null => f.nullable,
            Value::Int(_) => f.ty == crate::registry::ScalarType::Int,
            Value::Text(_) => f.ty == crate::registry::ScalarType::Text,
        };
        if !ok {
            return Some(c);
        }
        c = c + 1;
    }
    None
}

/// The row an insert stores: the generated key, then the payload.
pub open spec fn inserted_row(id: i64, payload: Seq<Value>) -> Seq<Value> {
    seq![Value::Int(id)].add(payload)
}

/// Storage is unchanged but for the table of entity `e`.
pub open spec fn others_unchanged(before: Store, after: Store, e: int) -> bool {
    &&& after.tables@.len() == before.tables@.len()
    &&& forall|x: int| 0 <= x < before.tables@.len() && x != e ==> #[trigger] after.tables@[x] == before.tables@[x]
}

/// Some stored row of entity `e` has key `k`.
pub open spec fn has_key(store: Store, e: int, k: i64) -> bool {
    exists|j: int| 0 <= j < store.rows(e).len() && row_key(store.rows(e)[j]) == k
}

fn find_key(store: &Store, e: usize, v: &Value) -> (r: Option<usize>)
    requires
        e < store.tables@.len(),
        v is Int,
        forall|j: int| 0 <= j < store.rows(e as int).len() ==> store.rows(e as int)[j].len() >= 1 && store.rows(e as int)[j][0] is Int,
    ensures
        r matches Some(j) ==> j < store.rows(e as int).len() && row_key(store.rows(e as int)[j as int]) == row_key(seq![*v]),
        r is None ==> forall|j: int| 0 <= j < store.rows(e as int).len() ==> row_key(store.rows(e as int)[j]) != row_key(seq![*v]),
{
    let rows = &store.tables[e].rows;
    let mut j: usize = 0;
    while j < rows.len()
        invariant
            rows@ == store.tables@[e as int].rows@,
            v is Int,
            forall|x: int| 0 <= x < store.rows(e as int).len() ==> store.rows(e as int)[x].len() >= 1 && store.rows(e as int)[x][0] is Int,
            j <= rows@.len(),
            forall|x: int| 0 <= x < j ==> row_key(store.rows(e as int)[x]) != row_key(seq![*v]),
        decreases rows@.len() - j,
    {
        assert(store.rows(e as int)[j as int] == rows@[j as int]@);
        if rows[j][0].same_as(v) {
            return Some(j);
        }
        j = j + 1;
    }
    None
}

fn push_row(store: &mut Store, e: usize, row: Vec<Value>)
    requires
        e < old(store).tables@.len(),
        old(store).tables@[e as int].next_id < i64::MAX,
    ensures
        others_unchanged(*old(store), *final(store), e as int),
        final(store).tables@[e as int].rows@ == old(store).tables@[e as int].rows@.push(row),
        final(store).tables@[e as int].next_id == old(store).tables@[e as int].next_id + 1,
{
    let t = &mut store.tables[e];
    t.rows.push(row);
    t.next_id = t.next_id + 1;
}

fn set_row(store: &mut Store, e: usize, j: usize, row: Vec<Value>)
    requires
        e < old(store).tables@.len(),
        j < old(store).tables@[e as int].rows@.len(),
    ensures
        others_unchanged(*old(store), *final(store), e as int),
        final(store).tables@[e as int].rows@ == old(store).tables@[e as int].rows@.update(j as int, row),
        final(store).tables@[e as int].next_id == old(store).tables@[e as int].next_id,
{
    let t = &mut store.tables[e];
    t.rows.set(j, row);
}

/// Inserts a new row of entity `e`. The payload gives a value for every column but the
/// key, which storage generates; the stored row is returned.
pub fn insert(reg: &Registry, store: &mut Store, e: usize, payload: Vec<Value>) -> (r: Result<Vec<Value>, MutationError>)
    requires
        reg.wf(),
        old(store).keys_wf(*reg),
        e < reg.n_entities(),
    ensures
        final(store).keys_wf(*reg),
        r is Ok <==> insert_payload_ok(*reg, e as int, payload@) && refs_ok(*reg, *old(store), e as int, inserted_row(old(store).tables@[e as int].next_id, payload@)) && old(store).tables@[e as int].next_id < i64::MAX,
        r matches Ok(row) ==> row@ == inserted_row(old(store).tables@[e as int].next_id, payload@)
            && final(store).rows(e as int) == old(store).rows(e as int).push(row@)
            && final(store).tables@[e as int].next_id == old(store).tables@[e as int].next_id + 1
            && others_unchanged(*old(store), *final(store), e as int),
        r is Err ==> *final(store) == *old(store),
        r matches Err(MutationError::MissingField { column }) ==> payload@.len() + 1 < reg.fields(e as int).len() && column == payload@.len() + 1,
        r matches Err(MutationError::UnexpectedField) ==> payload@.len() + 1 > reg.fields(e as int).len(),
        r matches Err(MutationError::InvalidValue { column }) ==> 1 <= column <= payload@.len() && !value_fits(reg.fields(e as int)[column as int], payload@[column - 1]),
        r matches Err(MutationError::ReferentialIntegrity { relation }) ==> relation < reg.entities@[e as int].relations@.len() && !ref_ok(*reg, *old(store), e as int, relation as int, inserted_row(old(store).tables@[e as int].next_id, payload@)),
        r matches Err(MutationError::KeysExhausted) ==> old(store).tables@[e as int].next_id == i64::MAX,
        !(r matches Err(MutationError::NotFound)),
{
    let nf = reg.entities[e].fields.len();
    assert(crate::registry::entity_ok(reg.entities@, e as int));
    if payload.len() < nf - 1 {
        return Err(MutationError::MissingField { column: payload.len() + 1 });
    }
    if payload.len() > nf - 1 {
        return Err(MutationError::UnexpectedField);
    }
    if let Some(c) = first_misfit(reg, e, &payload, 1) {
        return Err(MutationError::InvalidValue { column: c + 1 });
    }
    let id = store.tables[e].next_id;
    let mut row: Vec<Value> = Vec::new();
    row.push(Value::Int(id));
    let mut c: usize = 0;
    while c < payload.len()
        invariant
            row@ == inserted_row(id, payload@.subrange(0, c as int)),
            c <= payload@.len(),
        decreases payload@.len() - c,
    {
        row.push(payload[c].duplicate());
        c = c + 1;
        assert(row@ =~= inserted_row(id, payload@.subrange(0, c as int)));
    }
    assert(payload@.subrange(0, payload@.len() as int) =~= payload@);
    proof {
        assert forall|x: int| 0 <= x < row@.len() implies #[trigger] value_fits(reg.fields(e as int)[x], row@[x]) by {
            if x > 0 {
                assert(value_fits(reg.fields(e as int)[(x - 1) + 1], payload@[x - 1]));
            }
        }
    }
    if let Some(k) = check_refs(reg, store, e, &row) {
        return Err(MutationError::ReferentialIntegrity { relation: k });
    }
    if id == i64::MAX {
        return Err(MutationError::KeysExhausted);
    }
    let out = duplicate_row(&row);
    let ghost before = *store;
    push_row(store, e, row);
    proof {
        let t = store.tables@[e as int];
        let t0 = before.tables@[e as int];
        assert(table_wf(t0, reg.fields(e as int).len() as int));
        assert forall|x: int| 0 <= x < reg.n_entities() implies #[trigger] table_wf(store.tables@[x], reg.fields(x).len() as int) by {
            if x != e {
                assert(table_wf(before.tables@[x], reg.fields(x).len() as int));
            } else {
                assert forall|a: int, b: int| 0 <= a < b < t.rows@.len() implies row_key(t.rows@[a]@) != row_key(t.rows@[b]@) by {
                    if b == t0.rows@.len() {
                        assert(row_key(t0.rows@[a]@) < t0.next_id);
                    }
                }
            }
        }
        assert(store.rows(e as int) =~= before.rows(e as int).push(out@));
    }
    Ok(out)
}

/// Replaces the whole row of entity `e` whose key is `payload[0]` with `payload`. Storage
/// enforces referential integrity: a to-one foreign key that names no stored row is refused
/// with `ReferentialIntegrity`.
pub fn update(reg: &Registry, store: &mut Store, e: usize, payload: Vec<Value>) -> (r: Result<Vec<Value>, MutationError>)
    requires
        reg.wf(),
        old(store).keys_wf(*reg),
        e < reg.n_entities(),
    ensures
        final(store).keys_wf(*reg),
        r is Ok <==> conforms(reg.fields(e as int), payload@) && has_key(*old(store), e as int, row_key(payload@)) && refs_ok(*reg, *old(store), e as int, payload@),
        r matches Ok(row) ==> row@ == payload@ && exists|j: int|
            0 <= j < old(store).rows(e as int).len() && row_key(old(store).rows(e as int)[j]) == row_key(payload@)
            && final(store).rows(e as int) == old(store).rows(e as int).update(j, payload@),
        r matches Ok(_) ==> final(store).tables@[e as int].next_id == old(store).tables@[e as int].next_id && others_unchanged(*old(store), *final(store), e as int),
        r is Err ==> *final(store) == *old(store),
        r matches Err(MutationError::MissingField { column }) ==> payload@.len() < reg.fields(e as int).len() && column == payload@.len(),
        r matches Err(MutationError::UnexpectedField) ==> payload@.len() > reg.fields(e as int).len(),
        r matches Err(MutationError::InvalidValue { column }) ==> column < payload@.len() && !value_fits(reg.fields(e as int)[column as int], payload@[column as int]),
        r matches Err(MutationError::NotFound) ==> conforms(reg.fields(e as int), payload@) && !has_key(*old(store), e as int, row_key(payload@)),
        r matches Err(MutationError::ReferentialIntegrity { relation }) ==> relation < reg.entities@[e as int].relations@.len() && !ref_ok(*reg, *old(store), e as int, relation as int, payload@),
        !(r matches Err(MutationError::KeysExhausted)),
{
    let nf = reg.entities[e].fields.len();
    assert(crate::registry::entity_ok(reg.entities@, e as int));
    if payload.len() < nf {
        return Err(MutationError::MissingField { column: payload.len() });
    }
    if payload.len() > nf {
        return Err(MutationError::UnexpectedField);
    }
    if let Some(c) = first_misfit(reg, e, &payload, 0) {
        assert(!value_fits(reg.fields(e as int)[c + 0], payload@[c as int]));
        return Err(MutationError::InvalidValue { column: c });
    }
    proof {
        assert forall|x: int| 0 <= x < payload@.len() implies #[trigger] value_fits(reg.fields(e as int)[x], payload@[x]) by {
            assert(value_fits(reg.fields(e as int)[x + 0], payload@[x]));
        }
    }
    let ghost key = row_key(payload@);
    assert(value_fits(reg.fields(e as int)[0], payload@[0]));
    assert(table_wf(store.tables@[e as int], reg.fields(e as int).len() as int));
    assert forall|x: int| 0 <= x < store.rows(e as int).len() implies store.rows(e as int)[x].len() >= 1 && store.rows(e as int)[x][0] is Int by {
        assert(store.rows(e as int)[x] == store.tables@[e as int].rows@[x]@);
    }
    assert(row_key(seq![payload@[0]]) == key);
    let idx = match find_key(store, e, &payload[0]) {
        None => {
            assert(!has_key(*store, e as int, key));
            return Err(MutationError::NotFound);
        },
        Some(idx) => idx,
    };
    if let Some(k) = check_refs(reg, store, e, &payload) {
        return Err(MutationError::ReferentialIntegrity { relation: k });
    }
    let out = duplicate_row(&payload);
    let ghost before = *store;
    set_row(store, e, idx, payload);
    proof {
        let t = store.tables@[e as int];
        let t0 = before.tables@[e as int];
        assert(row_key(before.rows(e as int)[idx as int]) == key);
        assert forall|x: int| 0 <= x < reg.n_entities() implies #[trigger] table_wf(store.tables@[x], reg.fields(x).len() as int) by {
            if x != e {
                assert(table_wf(before.tables@[x], reg.fields(x).len() as int));
            } else {
                assert forall|a: int, b: int| 0 <= a < b < t.rows@.len() implies row_key(t.rows@[a]@) != row_key(t.rows@[b]@) by {
                    assert(row_key(t0.rows@[a]@) != row_key(t0.rows@[b]@));
                }
                assert forall|a: int| #![trigger t.rows@[a]] 0 <= a < t.rows@.len() implies t.rows@[a]@.len() == reg.fields(x).len() && t.rows@[a]@[0] is Int && row_key(t.rows@[a]@) < t.next_id by {
                    assert(t0.rows@[a]@.len() == reg.fields(x).len());
                }
            }
        }
        assert(store.rows(e as int) =~= before.rows(e as int).update(idx as int, out@));
    }
    Ok(out)
}

/// The root step that lists entity `e` unpaginated.
pub open spec fn listing(e: usize) -> Seq<QueryStep> {
    seq![QueryStep { entity: e, parent: None, relation: 0, limit: None, offset: 0 }]
}

/// The condition `key == id`.
pub open spec fn key_is(id: i64) -> Seq<Condition> {
    seq![Condition { column: 0, value: Value::Int(id), equal: true }]
}

proof fn lemma_no_earlier_match(rows: Seq<Seq<Value>>, id: i64, e: int, n: int)
    requires
        n <= rows.len(),
        forall|j: int| 0 <= j < n ==> rows[j].len() >= 1 && rows[j][0] is Int && row_key(rows[j]) < id,
    ensures
        root_match(rows, key_is(id), Seq::empty(), e, n).len() == 0,
    decreases n,
{
    if n > 0 {
        lemma_no_earlier_match(rows, id, e, n - 1);
        assert(!cond_holds(key_is(id)[0], rows[n - 1]));
    }
}

/// Insert-then-query round trip: after an insert stored `row` under the generated key, the
/// listing of that entity filtered on the key yields exactly that row, and so the inserted
/// scalar values.
pub proof fn lemma_insert_then_query(reg: Registry, before: Store, after: Store, e: usize, row: Seq<Value>)
    requires
        reg.wf(),
        before.keys_wf(reg),
        e < reg.n_entities(),
        row.len() >= 1,
        row[0] == Value::Int(before.tables@[e as int].next_id),
        after.wf(reg),
        after.rows(e as int) == before.rows(e as int).push(row),
    ensures
        expected_rows(reg, after, listing(e), key_is(before.tables@[e as int].next_id), Seq::empty(), 0) == seq![row],
{
    let id = before.tables@[e as int].next_id;
    let rows = after.rows(e as int);
    let n = before.rows(e as int).len() as int;
    assert(table_wf(before.tables@[e as int], reg.fields(e as int).len() as int));
    assert forall|j: int| 0 <= j < n implies rows[j].len() >= 1 && rows[j][0] is Int && row_key(rows[j]) < id by {
        assert(rows[j] == before.rows(e as int)[j]);
        assert(before.rows(e as int)[j] == before.tables@[e as int].rows@[j]@);
        assert(crate::registry::key_column_ok(reg.fields(e as int))) by {
            assert(crate::registry::entity_ok(reg.entities@, e as int));
        }
    }
    lemma_no_earlier_match(rows, id, e as int, n);
    assert(admitted(key_is(id), Seq::empty(), e as int, row));
    assert(root_match(rows, key_is(id), Seq::empty(), e as int, n + 1) =~= seq![row]);
    assert(paginate(seq![row], None, 0) =~= seq![row]);
}

} // verus!
