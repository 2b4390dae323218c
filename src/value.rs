use vstd::prelude::*;
use crate::registry::{FieldDecl, ScalarType};

verus! {

/// A column value as it travels between storage and the engine.
#[derive(Debug, PartialEq, Eq)]
pub enum Value {
    Null,
    Int(i64),
    Text(String),
}

/// Two values are the same: same variant and same contents.
pub open spec fn same_value(a: Value, b: Value) -> bool {
    match (a, b) {
        (Value::Null, Value::Null) => true,
        (Value::Int(i), Value::Int(j)) => i == j,
        (Value::Text(s), Value::Text(t)) => s@ == t@,
        _ => false,
    }
}

/// A stored row decodes against the declared fields: one value per field, of its type,
/// and null only where the field is nullable.
pub open spec fn conforms(fields: Seq<FieldDecl>, row: Seq<Value>) -> bool {
    &&& row.len() == fields.len()
    &&& forall|c: int| 0 <= c < row.len() ==> #[trigger] value_fits(fields[c], row[c])
}

pub open spec fn value_fits(f: FieldDecl, v: Value) -> bool {
    match v {
        Value::Null => f.nullable,
        Value::Int(_) => f.ty == ScalarType::Int,
        Value::Text(_) => f.ty == ScalarType::Text,
    }
}

/// The views of a sequence of rows.
pub open spec fn rows_view(rows: Seq<Vec<Value>>) -> Seq<Seq<Value>> {
    Seq::new(rows.len(), |j: int| rows[j]@)
}

impl Value {
    /// A copy of the value, field for field.
    pub fn duplicate(&self) -> (r: Value)
        ensures
            r == *self,
    {
        match self {
            Value::Null => Value::Null,
            Value::Int(i) => Value::Int(*i),
            Value::Text(s) => Value::Text(s.clone()),
        }
    }

    /// Compares two values by variant and contents.
    pub fn same_as(&self, other: &Value) -> (r: bool)
        ensures
            r == same_value(*self, *other),
    {
        match (self, other) {
            (Value::Null, Value::Null) => true,
            (Value::Int(i), Value::Int(j)) => *i == *j,
            (Value::Text(s), Value::Text(t)) => *s == *t,
            _ => false,
        }
    }
}

/// A copy of a row.
pub fn duplicate_row(row: &Vec<Value>) -> (r: Vec<Value>)
    ensures
        r@ == row@,
{
    let mut out: Vec<Value> = Vec::new();
    let mut c: usize = 0;
    while c < row.len()
        invariant
            c <= row@.len(),
            out@ == row@.subrange(0, c as int),
        decreases row@.len() - c,
    {
        out.push(row[c].duplicate());
        c = c + 1;
    }
    assert(out@ =~= row@);
    out
}

/// Checks that a row decodes against the declared fields.
pub fn row_conforms(fields: &Vec<FieldDecl>, row: &Vec<Value>) -> (r: bool)
    ensures
        r == conforms(fields@, row@),
{
    if row.len() != fields.len() {
        return false;
    }
    let mut c: usize = 0;
    while c < row.len()
        invariant
            row@.len() == fields@.len(),
            c <= row@.len(),
            forall|x: int| 0 <= x < c ==> #[trigger] value_fits(fields@[x], row@[x]),
        decreases row@.len() - c,
    {
        let f = &fields[c];
        let ok = match &row[c] {
            Value::Null => f.nullable,
            Value::Int(_) => f.ty == ScalarType::Int,
            Value::Text(_) => f.ty == ScalarType::Text,
        };
        if !ok {
            assert(!value_fits(fields@[c as int], row@[c as int]));
            return false;
        }
        c = c + 1;
    }
    true
}

} // verus!
