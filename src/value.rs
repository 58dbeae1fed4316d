use vstd::prelude::*;

verus! {

/// A scalar as it is bound to one placeholder of a statement.
/// A float is carried as its IEEE-754 bit pattern.
#[derive(Debug, PartialEq)]
pub enum Value {
    Null,
    Boolean(bool),
    Integer(i64),
    Float(u64),
    Text(String),
    Bytes(Vec<u8>),
}

/// The mathematical model of a `Value`.
pub enum ValueModel {
    Null,
    Boolean(bool),
    Integer(i64),
    Float(u64),
    Text(Seq<char>),
    Bytes(Seq<u8>),
}

impl View for Value {
    type V = ValueModel;

    open spec fn view(&self) -> ValueModel {
        match self {
            Value::Null => ValueModel::Null,
            Value::Boolean(b) => ValueModel::Boolean(*b),
            Value::Integer(i) => ValueModel::Integer(*i),
            Value::Float(f) => ValueModel::Float(*f),
            Value::Text(s) => ValueModel::Text(s@),
            Value::Bytes(b) => ValueModel::Bytes(b@),
        }
    }
}

impl Value {
    /// A copy with the same model.
    pub fn duplicate(&self) -> (r: Value)
        ensures
            r@ == self@,
    {
        match self {
            Value::Null => Value::Null,
            Value::Boolean(b) => Value::Boolean(*b),
            Value::Integer(i) => Value::Integer(*i),
            Value::Float(f) => Value::Float(*f),
            Value::Text(s) => Value::Text(s.clone()),
            Value::Bytes(b) => Value::Bytes(b.clone()),
        }
    }
}

/// One named value of a record.
#[derive(Debug)]
pub struct Field {
    pub name: String,
    pub value: Value,
}

/// The model of a record: its fields in order, as (name, value) pairs.
pub type RecordModel = Seq<(Seq<char>, ValueModel)>;

/// The names of a record model, in order.
pub open spec fn keys_of(r: RecordModel) -> Seq<Seq<char>> {
    r.map_values(|f: (Seq<char>, ValueModel)| f.0)
}

/// Whether some field of `r` is named `name`.
pub open spec fn has_key(r: RecordModel, name: Seq<char>) -> bool {
    exists|i: int| 0 <= i < r.len() && (#[trigger] r[i]).0 == name
}

/// The value of the first field of `r` named `name`.
pub open spec fn lookup(r: RecordModel, name: Seq<char>) -> Option<ValueModel>
    decreases r.len(),
{
    if r.len() == 0 {
        None
    } else if r[0].0 == name {
        Some(r[0].1)
    } else {
        lookup(r.drop_first(), name)
    }
}

/// The value bound for column `name`: the record's value, or Null where the
/// record has no such field.
pub open spec fn value_or_null(r: RecordModel, name: Seq<char>) -> ValueModel {
    match lookup(r, name) {
        Some(v) => v,
        None => ValueModel::Null,
    }
}

/// Field names are non-empty and pairwise distinct.
pub open spec fn record_wf(r: RecordModel) -> bool {
    &&& forall|i: int| 0 <= i < r.len() ==> (#[trigger] r[i]).0.len() > 0
    &&& forall|i: int, j: int| 0 <= i < j < r.len() ==> (#[trigger] r[i]).0 != (#[trigger] r[j]).0
}

/// One ingestible row: an ordered mapping from column name to value.
#[derive(Debug)]
pub struct Record {
    fields: Vec<Field>,
}

impl View for Record {
    type V = RecordModel;

    closed spec fn view(&self) -> RecordModel {
        self.fields@.map_values(|f: Field| (f.name@, f.value@))
    }
}

pub proof fn lemma_lookup_found(r: RecordModel, name: Seq<char>)
    ensures
        lookup(r, name) is Some <==> has_key(r, name),
    decreases r.len(),
{
    if r.len() > 0 {
        lemma_lookup_found(r.drop_first(), name);
        if has_key(r, name) && r[0].0 != name {
            let i = choose|i: int| 0 <= i < r.len() && (#[trigger] r[i]).0 == name;
            assert(r.drop_first()[i - 1].0 == name);
        }
        if has_key(r.drop_first(), name) {
            let i = choose|i: int| 0 <= i < r.len() - 1 && (#[trigger] r.drop_first()[i]).0 == name;
            assert(r[i + 1].0 == name);
        }
    }
}

/// In a record with distinct names, the value found for the name of field
/// `i` is the value of field `i`.
pub proof fn lemma_lookup_at(r: RecordModel, i: int)
    requires
        record_wf(r),
        0 <= i < r.len(),
    ensures
        lookup(r, r[i].0) == Some(r[i].1),
    decreases r.len(),
{
    if i > 0 {
        assert(r[0].0 != r[i].0);
        assert(r.drop_first()[i - 1] == r[i]);
        lemma_lookup_at(r.drop_first(), i - 1);
    }
}

impl Record {
    /// A record with no fields.
    pub fn new() -> (r: Record)
        ensures
            r@ == Seq::<(Seq<char>, ValueModel)>::empty(),
    {
        let r = Record { fields: Vec::new() };
        proof {
            assert(r@ =~= Seq::<(Seq<char>, ValueModel)>::empty());
        }
        r
    }

    /// Field names are non-empty and pairwise distinct.
    pub open spec fn wf(&self) -> bool {
        record_wf(self@)
    }

    /// The number of fields.
    pub fn len(&self) -> (n: usize)
        ensures
            n == self@.len(),
    {
        self.fields.len()
    }

    /// The name of field `i`.
    pub fn name_at(&self, i: usize) -> (s: &String)
        requires
            i < self@.len(),
        ensures
            s@ == self@[i as int].0,
    {
        &self.fields[i].name
    }

    /// The value of field `i`.
    pub fn value_at(&self, i: usize) -> (v: &Value)
        requires
            i < self@.len(),
        ensures
            v@ == self@[i as int].1,
    {
        &self.fields[i].value
    }

    /// The value of the field named `name`, if there is one.
    pub fn get(&self, name: &String) -> (r: Option<&Value>)
        ensures
            match r {
                Some(v) => lookup(self@, name@) == Some(v@),
                None => lookup(self@, name@) is None,
            },
    {
        let mut i: usize = 0;
        assert(self@.subrange(0, self@.len() as int) =~= self@);
        while i < self.fields.len()
            invariant
                0 <= i <= self@.len(),
                lookup(self@, name@) == lookup(self@.subrange(i as int, self@.len() as int), name@),
            decreases self@.len() - i,
        {
            let ghost rest = self@.subrange(i as int, self@.len() as int);
            assert(rest.drop_first() =~= self@.subrange(i + 1, self@.len() as int));
            if self.fields[i].name == *name {
                return Some(&self.fields[i].value);
            }
            i = i + 1;
        }
        None
    }

    /// Adds a field at the end. Refused, leaving the record as it is, where
    /// the name is empty or already present.
    pub fn push(&mut self, name: String, value: Value) -> (ok: bool)
        ensures
            ok == (name@.len() > 0 && !has_key(old(self)@, name@)),
            ok ==> final(self)@ == old(self)@.push((name@, value@)),
            !ok ==> final(self)@ == old(self)@,
            old(self).wf() ==> final(self).wf(),
    {
        if name.as_str().is_empty() {
            proof {
                assert(name@.len() == 0);
            }
            return false;
        }
        let found = self.get(&name);
        proof {
            lemma_lookup_found(self@, name@);
        }
        if found.is_some() {
            return false;
        }
        self.fields.push(Field { name, value });
        proof {
            assert(final(self)@ =~= old(self)@.push((name@, value@)));
        }
        true
    }
}

} // verus!
