use vstd::prelude::*;

verus! {

/// The primitive type of a stored column.
#[derive(Clone, Copy, PartialEq, Eq, Structural, Debug)]
pub enum ScalarType {
    Int,
    Text,
}

/// Cardinality of a relationship field.
#[derive(Clone, Copy, PartialEq, Eq, Structural, Debug)]
pub enum RelKind {
    /// The foreign key is a column of the owning entity.
    ToOne,
    /// The foreign key is a column of the target entity, pointing back.
    ToMany,
}

/// One stored column of an entity.
pub struct FieldDecl {
    pub name: String,
    pub ty: ScalarType,
    pub nullable: bool,
}

/// One relationship field of an entity, declared by names.
pub struct RelationDecl {
    pub name: String,
    pub kind: RelKind,
    /// Table identity of the related entity.
    pub target: String,
    /// For `ToOne` a column of the owning entity, for `ToMany` a column of the target.
    pub fk_column: String,
}

/// Declaration of one entity. Column 0 of `fields` is its primary key.
pub struct EntityDecl {
    pub table: String,
    pub fields: Vec<FieldDecl>,
    pub relations: Vec<RelationDecl>,
}

/// Why a set of declarations cannot form a registry.
#[derive(Clone, Copy, PartialEq, Eq, Structural, Debug)]
pub enum ConfigError {
    /// Two entities claim the same table identity.
    DuplicateTable { first: usize, second: usize },
    /// Column 0 of the entity is not a non-nullable integer.
    BadPrimaryKey { entity: usize },
    /// Two fields, or two relations, of the entity share a name.
    DuplicateMember { entity: usize },
    /// The relation names a table that no entity declares.
    UnknownTarget { entity: usize, relation: usize },
    /// The relation's foreign-key column is missing or is not a non-key integer column.
    MissingForeignKey { entity: usize, relation: usize },
}

/// A relation resolved to indices: the target entity and the foreign-key column.
#[derive(Clone, Copy, PartialEq, Eq, Structural, Debug)]
pub struct Link {
    pub target: usize,
    pub fk: usize,
}

/// The validated, immutable description of every entity.
pub struct Registry {
    pub entities: Vec<EntityDecl>,
    /// `links[e][k]` resolves relation `k` of entity `e`.
    pub links: Vec<Vec<Link>>,
}

pub open spec fn key_column_ok(fields: Seq<FieldDecl>) -> bool {
    fields.len() >= 1 && fields[0].ty == ScalarType::Int && !fields[0].nullable
}

pub open spec fn tables_distinct(es: Seq<EntityDecl>) -> bool {
    forall|i: int, j: int| 0 <= i < j < es.len() ==> es[i].table@ != es[j].table@
}

pub open spec fn members_distinct(e: EntityDecl) -> bool {
    &&& forall|i: int, j: int|
        0 <= i < j < e.fields@.len() ==> e.fields@[i].name@ != e.fields@[j].name@
    &&& forall|i: int, j: int|
        0 <= i < j < e.relations@.len() ==> e.relations@[i].name@ != e.relations@[j].name@
}

/// A column that can carry a foreign key: a non-key integer column named `name`.
pub open spec fn fk_column_at(fields: Seq<FieldDecl>, c: int, name: Seq<char>) -> bool {
    0 < c < fields.len() && fields[c].name@ == name && fields[c].ty == ScalarType::Int
}

pub open spec fn has_table(es: Seq<EntityDecl>, name: Seq<char>) -> bool {
    exists|t: int| 0 <= t < es.len() && es[t].table@ == name
}

pub open spec fn has_fk_column(fields: Seq<FieldDecl>, name: Seq<char>) -> bool {
    exists|c: int| fk_column_at(fields, c, name)
}

/// The entity whose table identity is `name` (meaningful when `has_table`).
pub open spec fn table_of(es: Seq<EntityDecl>, name: Seq<char>) -> int {
    choose|t: int| 0 <= t < es.len() && es[t].table@ == name
}

/// The fields that hold the foreign key of relation `r`, declared on entity `owner`.
pub open spec fn fk_fields(es: Seq<EntityDecl>, owner: int, r: RelationDecl) -> Seq<FieldDecl> {
    if r.kind == RelKind::ToOne {
        es[owner].fields@
    } else {
        es[table_of(es, r.target@)].fields@
    }
}

pub open spec fn relation_ok(es: Seq<EntityDecl>, e: int, k: int) -> bool {
    let r = es[e].relations@[k];
    has_table(es, r.target@) && has_fk_column(fk_fields(es, e, r), r.fk_column@)
}

pub open spec fn entity_ok(es: Seq<EntityDecl>, e: int) -> bool {
    &&& key_column_ok(es[e].fields@)
    &&& members_distinct(es[e])
    &&& forall|k: int| 0 <= k < es[e].relations@.len() ==> relation_ok(es, e, k)
}

/// Every startup invariant of a set of entity declarations.
pub open spec fn decls_valid(es: Seq<EntityDecl>) -> bool {
    &&& tables_distinct(es)
    &&& forall|e: int| 0 <= e < es.len() ==> entity_ok(es, e)
}

/// `l` is the resolution of relation `k` of entity `e`.
pub open spec fn link_resolves(es: Seq<EntityDecl>, e: int, k: int, l: Link) -> bool {
    let r = es[e].relations@[k];
    &&& l.target < es.len()
    &&& es[l.target as int].table@ == r.target@
    &&& fk_column_at(
        if r.kind == RelKind::ToOne {
            es[e].fields@
        } else {
            es[l.target as int].fields@
        },
        l.fk as int,
        r.fk_column@,
    )
}

impl Registry {
    pub open spec fn wf(&self) -> bool {
        &&& decls_valid(self.entities@)
        &&& self.links@.len() == self.entities@.len()
        &&& forall|e: int|
            #![trigger self.links@[e]]
            0 <= e < self.entities@.len() ==> self.links@[e]@.len()
                == self.entities@[e].relations@.len()
        &&& forall|e: int, k: int|
            #![trigger self.links@[e]@[k]]
            0 <= e < self.entities@.len() && 0 <= k < self.links@[e]@.len() ==> link_resolves(
                self.entities@,
                e,
                k,
                self.links@[e]@[k],
            )
    }

    pub open spec fn n_entities(&self) -> int {
        self.entities@.len() as int
    }

    pub open spec fn fields(&self, e: int) -> Seq<FieldDecl> {
        self.entities@[e].fields@
    }

    pub open spec fn relation(&self, e: int, k: int) -> RelationDecl {
        self.entities@[e].relations@[k]
    }

    pub open spec fn link(&self, e: int, k: int) -> Link {
        self.links@[e]@[k]
    }

    /// Checks the declarations and resolves every relation to indices.
    pub fn build(decls: Vec<EntityDecl>) -> (r: Result<Registry, ConfigError>)
        ensures
            r is Ok <==> decls_valid(decls@),
            r matches Ok(reg) ==> reg.wf() && reg.entities@ == decls@,
            r matches Err(ConfigError::DuplicateTable { first, second }) ==> first < second
                < decls@.len() && decls@[first as int].table@ == decls@[second as int].table@,
            r matches Err(ConfigError::BadPrimaryKey { entity }) ==> entity < decls@.len()
                && !key_column_ok(decls@[entity as int].fields@),
            r matches Err(ConfigError::DuplicateMember { entity }) ==> entity < decls@.len()
                && !members_distinct(decls@[entity as int]),
            r matches Err(ConfigError::UnknownTarget { entity, relation }) ==> entity
                < decls@.len() && relation < decls@[entity as int].relations@.len()
                && !has_table(decls@, decls@[entity as int].relations@[relation as int].target@),
            r matches Err(ConfigError::MissingForeignKey { entity, relation }) ==> entity
                < decls@.len() && relation < decls@[entity as int].relations@.len()
                && !relation_ok(decls@, entity as int, relation as int),
    {
        let n = decls.len();
        let mut i: usize = 0;
        while i < n
            invariant
                n == decls@.len(),
                i <= n,
                forall|a: int, b: int| 0 <= a < b < i ==> decls@[a].table@ != decls@[b].table@,
            decreases n - i,
        {
            let mut j: usize = 0;
            while j < i
                invariant
                    n == decls@.len(),
                    j <= i < n,
                    forall|a: int| 0 <= a < j ==> decls@[a].table@ != decls@[i as int].table@,
                decreases i - j,
            {
                if decls[j].table == decls[i].table {
                    return Err(ConfigError::DuplicateTable { first: j, second: i });
                }
                j = j + 1;
            }
            i = i + 1;
        }
        let mut links: Vec<Vec<Link>> = Vec::new();
        let mut e: usize = 0;
        while e < n
            invariant
                n == decls@.len(),
                e <= n,
                tables_distinct(decls@),
                links@.len() == e,
                forall|x: int| 0 <= x < e ==> entity_ok(decls@, x),
                forall|x: int|
                    #![trigger links@[x]]
                    0 <= x < e ==> links@[x]@.len() == decls@[x].relations@.len(),
                forall|x: int, k: int|
                    #![trigger links@[x]@[k]]
                    0 <= x < e && 0 <= k < links@[x]@.len() ==> link_resolves(
                        decls@,
                        x,
                        k,
                        links@[x]@[k],
                    ),
            decreases n - e,
        {
            let row = check_entity(&decls, e);
            match row {
                Err(err) => {
                    return Err(err);
                },
                Ok(l) => {
                    links.push(l);
                },
            }
            e = e + 1;
        }
        Ok(Registry { entities: decls, links })
    }

    /// The entity whose table identity is `name`.
    pub fn lookup(&self, name: &String) -> (r: Option<usize>)
        requires
            self.wf(),
        ensures
            r matches Some(t) ==> t < self.n_entities() && self.entities@[t as int].table@
                == name@,
            r is None ==> !has_table(self.entities@, name@),
    {
        find_table(&self.entities, name)
    }

    /// The relation of entity `e` named `name`.
    pub fn relation_named(&self, e: usize, name: &String) -> (r: Option<usize>)
        requires
            self.wf(),
            e < self.n_entities(),
        ensures
            r matches Some(k) ==> k < self.entities@[e as int].relations@.len()
                && self.relation(e as int, k as int).name@ == name@,
            r is None ==> forall|k: int|
                0 <= k < self.entities@[e as int].relations@.len() ==> self.relation(
                    e as int,
                    k,
                ).name@ != name@,
    {
        let rels = &self.entities[e].relations;
        let mut k: usize = 0;
        while k < rels.len()
            invariant
                rels@ == self.entities@[e as int].relations@,
                k <= rels@.len(),
                forall|x: int| 0 <= x < k ==> rels@[x].name@ != name@,
            decreases rels@.len() - k,
        {
            if rels[k].name == *name {
                return Some(k);
            }
            k = k + 1;
        }
        None
    }

    /// The scalar column of entity `e` named `name`.
    pub fn field_named(&self, e: usize, name: &String) -> (r: Option<usize>)
        requires
            self.wf(),
            e < self.n_entities(),
        ensures
            r matches Some(c) ==> c < self.fields(e as int).len() && self.fields(
                e as int,
            )[c as int].name@ == name@,
            r is None ==> forall|c: int|
                0 <= c < self.fields(e as int).len() ==> self.fields(e as int)[c].name@
                    != name@,
    {
        find_field(&self.entities[e].fields, name)
    }
}

fn find_table(es: &Vec<EntityDecl>, name: &String) -> (r: Option<usize>)
    ensures
        r matches Some(t) ==> t < es@.len() && es@[t as int].table@ == name@,
        r is None ==> !has_table(es@, name@),
{
    let mut t: usize = 0;
    while t < es.len()
        invariant
            t <= es@.len(),
            forall|x: int| 0 <= x < t ==> es@[x].table@ != name@,
        decreases es@.len() - t,
    {
        if es[t].table == *name {
            return Some(t);
        }
        t = t + 1;
    }
    None
}

fn find_field(fields: &Vec<FieldDecl>, name: &String) -> (r: Option<usize>)
    ensures
        r matches Some(c) ==> c < fields@.len() && fields@[c as int].name@ == name@,
        r is None ==> forall|c: int| 0 <= c < fields@.len() ==> fields@[c].name@ != name@,
{
    let mut c: usize = 0;
    while c < fields.len()
        invariant
            c <= fields@.len(),
            forall|x: int| 0 <= x < c ==> fields@[x].name@ != name@,
        decreases fields@.len() - c,
    {
        if fields[c].name == *name {
            return Some(c);
        }
        c = c + 1;
    }
    None
}

fn find_fk_column(fields: &Vec<FieldDecl>, name: &String) -> (r: Option<usize>)
    ensures
        r matches Some(c) ==> fk_column_at(fields@, c as int, name@),
        r is None ==> !has_fk_column(fields@, name@),
{
    let mut c: usize = 1;
    while c < fields.len()
        invariant
            1 <= c,
            forall|x: int| 0 <= x < c ==> !fk_column_at(fields@, x, name@),
        decreases fields@.len() - c,
    {
        if fields[c].name == *name && fields[c].ty == ScalarType::Int {
            return Some(c);
        }
        c = c + 1;
    }
    None
}

fn check_members(e: &EntityDecl) -> (r: bool)
    ensures
        r == members_distinct(*e),
{
    let nf = e.fields.len();
    let nr = e.relations.len();
    let mut i: usize = 0;
    while i < nf
        invariant
            nf == e.fields@.len(),
            nr == e.relations@.len(),
            i <= nf,
            forall|a: int, b: int| 0 <= a < b < i ==> e.fields@[a].name@ != e.fields@[b].name@,
        decreases nf - i,
    {
        let mut j: usize = 0;
        while j < i
            invariant
                nf == e.fields@.len(),
                j <= i < nf,
                forall|a: int| 0 <= a < j ==> e.fields@[a].name@ != e.fields@[i as int].name@,
            decreases i - j,
        {
            if e.fields[j].name == e.fields[i].name {
                return false;
            }
            j = j + 1;
        }
        i = i + 1;
    }
    let mut i: usize = 0;
    while i < nr
        invariant
            nr == e.relations@.len(),
            i <= nr,
            forall|a: int, b: int|
                0 <= a < b < i ==> e.relations@[a].name@ != e.relations@[b].name@,
        decreases nr - i,
    {
        let mut j: usize = 0;
        while j < i
            invariant
                nr == e.relations@.len(),
                j <= i < nr,
                forall|a: int|
                    0 <= a < j ==> e.relations@[a].name@ != e.relations@[i as int].name@,
            decreases i - j,
        {
            if e.relations[j].name == e.relations[i].name {
                return false;
            }
            j = j + 1;
        }
        i = i + 1;
    }
    true
}

/// Validates entity `e` of `decls` and resolves its relations.
fn check_entity(decls: &Vec<EntityDecl>, e: usize) -> (r: Result<Vec<Link>, ConfigError>)
    requires
        e < decls@.len(),
        tables_distinct(decls@),
    ensures
        r is Ok <==> entity_ok(decls@, e as int),
        r matches Ok(l) ==> l@.len() == decls@[e as int].relations@.len() && forall|k: int|
            0 <= k < l@.len() ==> link_resolves(decls@, e as int, k, #[trigger] l@[k]),
        r matches Err(ConfigError::BadPrimaryKey { entity }) ==> entity == e
            && !key_column_ok(decls@[e as int].fields@),
        r matches Err(ConfigError::DuplicateMember { entity }) ==> entity == e
            && !members_distinct(decls@[e as int]),
        r matches Err(ConfigError::UnknownTarget { entity, relation }) ==> entity == e
            && relation < decls@[e as int].relations@.len() && !has_table(
            decls@,
            decls@[e as int].relations@[relation as int].target@,
        ),
        r matches Err(ConfigError::MissingForeignKey { entity, relation }) ==> entity == e
            && relation < decls@[e as int].relations@.len() && !relation_ok(
            decls@,
            e as int,
            relation as int,
        ),
        !(r matches Err(ConfigError::DuplicateTable { .. })),
{
    let ent = &decls[e];
    if ent.fields.len() == 0 || ent.fields[0].ty != ScalarType::Int || ent.fields[0].nullable {
        return Err(ConfigError::BadPrimaryKey { entity: e });
    }
    if !check_members(ent) {
        return Err(ConfigError::DuplicateMember { entity: e });
    }
    let mut links: Vec<Link> = Vec::new();
    let nr = ent.relations.len();
    let mut k: usize = 0;
    while k < nr
        invariant
            e < decls@.len(),
            ent == decls@[e as int],
            nr == ent.relations@.len(),
            tables_distinct(decls@),
            k <= nr,
            links@.len() == k,
            forall|x: int| 0 <= x < k ==> relation_ok(decls@, e as int, x),
            forall|x: int|
                0 <= x < k ==> link_resolves(decls@, e as int, x, #[trigger] links@[x]),
        decreases nr - k,
    {
        let rel = &ent.relations[k];
        let t = match find_table(decls, &rel.target) {
            None => {
                assert(!relation_ok(decls@, e as int, k as int));
                return Err(ConfigError::UnknownTarget { entity: e, relation: k });
            },
            Some(t) => t,
        };
        assert(table_of(decls@, rel.target@) == t) by {
            assert(has_table(decls@, rel.target@));
        }
        let holder = if rel.kind == RelKind::ToOne {
            &ent.fields
        } else {
            &decls[t].fields
        };
        assert(holder@ == fk_fields(decls@, e as int, *rel));
        let c = match find_fk_column(holder, &rel.fk_column) {
            None => {
                assert(!relation_ok(decls@, e as int, k as int));
                return Err(ConfigError::MissingForeignKey { entity: e, relation: k });
            },
            Some(c) => c,
        };
        assert(relation_ok(decls@, e as int, k as int));
        links.push(Link { target: t, fk: c });
        k = k + 1;
    }
    Ok(links)
}

} // verus!
