use vstd::prelude::*;

use crate::text::str_eq;
use crate::value::Value;
use vstd::string::StringExecFns;

verus! {

/// The static type of a column or of a value.
#[derive(Debug, Clone, Copy, PartialEq, Eq, Structural, Hash)]
pub enum DataType {
    Bool,
    String,
    Array,
    Object,
    Date,
    Binary,
    Uint8,
    Uint16,
    Uint32,
    Uint64,
    Int8,
    Int16,
    Int32,
    Int64,
    Float,
    Double,
    Decimal,
    /// A field can be weakly typed with "any"
    Any,
    /// A field should never be of type "null", this provides mapping between values and data types
    Null,
}

impl DataType {
    /// The name under which a type is written.
    pub open spec fn name(self) -> Seq<char> {
        match self {
            DataType::Bool => "boolean"@,
            DataType::String => "string"@,
            DataType::Array => "array"@,
            DataType::Object => "object"@,
            DataType::Date => "date"@,
            DataType::Binary => "binary"@,
            DataType::Uint8 => "uint8"@,
            DataType::Uint16 => "uint16"@,
            DataType::Uint32 => "uint32"@,
            DataType::Uint64 => "uint64"@,
            DataType::Int8 => "int8"@,
            DataType::Int16 => "int16"@,
            DataType::Int32 => "int32"@,
            DataType::Int64 => "int64"@,
            DataType::Float => "float"@,
            DataType::Double => "double"@,
            DataType::Decimal => "decimal"@,
            DataType::Any => "any"@,
            DataType::Null => "null"@,
        }
    }

    /// The fixed-width integer types.
    pub open spec fn is_integer(self) -> bool {
        match self {
            DataType::Uint8 | DataType::Uint16 | DataType::Uint32 | DataType::Uint64
            | DataType::Int8 | DataType::Int16 | DataType::Int32 | DataType::Int64 => true,
            _ => false,
        }
    }

    pub open spec fn spec_is_numeric(self) -> bool {
        self.is_integer() || self == DataType::Float || self == DataType::Double || self
            == DataType::Decimal
    }

    pub open spec fn spec_has_default(self) -> bool {
        self.spec_is_numeric() || self == DataType::Bool || self == DataType::String
    }

    pub fn as_str(&self) -> (r: &'static str)
        ensures
            r@ == self.name(),
    {
        match self {
            DataType::Bool => "boolean",
            DataType::String => "string",
            DataType::Array => "array",
            DataType::Object => "object",
            DataType::Date => "date",
            DataType::Binary => "binary",
            DataType::Uint8 => "uint8",
            DataType::Uint16 => "uint16",
            DataType::Uint32 => "uint32",
            DataType::Uint64 => "uint64",
            DataType::Int8 => "int8",
            DataType::Int16 => "int16",
            DataType::Int32 => "int32",
            DataType::Int64 => "int64",
            DataType::Float => "float",
            DataType::Double => "double",
            DataType::Decimal => "decimal",
            DataType::Any => "any",
            DataType::Null => "null",
        }
    }

    /// The type written under `name`, if any.
    pub fn from_name(name: &str) -> (r: Option<DataType>)
        ensures
            r matches Some(t) ==> t.name() == name@,
            r is None ==> forall|t: DataType| t.name() != name@,
    {
        let all = [
            DataType::Bool,
            DataType::String,
            DataType::Array,
            DataType::Object,
            DataType::Date,
            DataType::Binary,
            DataType::Uint8,
            DataType::Uint16,
            DataType::Uint32,
            DataType::Uint64,
            DataType::Int8,
            DataType::Int16,
            DataType::Int32,
            DataType::Int64,
            DataType::Float,
            DataType::Double,
            DataType::Decimal,
            DataType::Any,
            DataType::Null,
        ];
        let mut i: usize = 0;
        while i < 19
            invariant
                all@.len() == 19,
                all@ == seq![
                    DataType::Bool,
                    DataType::String,
                    DataType::Array,
                    DataType::Object,
                    DataType::Date,
                    DataType::Binary,
                    DataType::Uint8,
                    DataType::Uint16,
                    DataType::Uint32,
                    DataType::Uint64,
                    DataType::Int8,
                    DataType::Int16,
                    DataType::Int32,
                    DataType::Int64,
                    DataType::Float,
                    DataType::Double,
                    DataType::Decimal,
                    DataType::Any,
                    DataType::Null,
                ],
                i <= 19,
                forall|j: int| 0 <= j < i ==> (#[trigger] all@[j]).name() != name@,
            decreases 19 - i,
        {
            let t = all[i];
            if str_eq(t.as_str(), name) {
                return Some(t);
            }
            i += 1;
        }
        assert forall|t: DataType| t.name() != name@ by {
            assert(all@.contains(t)) by {
                match t {
                    DataType::Bool => assert(all@[0] == t),
                    DataType::String => assert(all@[1] == t),
                    DataType::Array => assert(all@[2] == t),
                    DataType::Object => assert(all@[3] == t),
                    DataType::Date => assert(all@[4] == t),
                    DataType::Binary => assert(all@[5] == t),
                    DataType::Uint8 => assert(all@[6] == t),
                    DataType::Uint16 => assert(all@[7] == t),
                    DataType::Uint32 => assert(all@[8] == t),
                    DataType::Uint64 => assert(all@[9] == t),
                    DataType::Int8 => assert(all@[10] == t),
                    DataType::Int16 => assert(all@[11] == t),
                    DataType::Int32 => assert(all@[12] == t),
                    DataType::Int64 => assert(all@[13] == t),
                    DataType::Float => assert(all@[14] == t),
                    DataType::Double => assert(all@[15] == t),
                    DataType::Decimal => assert(all@[16] == t),
                    DataType::Any => assert(all@[17] == t),
                    DataType::Null => assert(all@[18] == t),
                }
            }
        }
        None
    }

    pub fn has_default(&self) -> (r: bool)
        ensures
            r == self.spec_has_default(),
    {
        match self {
            DataType::Bool => true,
            DataType::String => true,
            DataType::Uint8 => true,
            DataType::Uint16 => true,
            DataType::Uint32 => true,
            DataType::Uint64 => true,
            DataType::Int8 => true,
            DataType::Int16 => true,
            DataType::Int32 => true,
            DataType::Int64 => true,
            DataType::Float => true,
            DataType::Double => true,
            DataType::Decimal => true,
            _ => false,
        }
    }

    pub fn is_numeric(&self) -> (r: bool)
        ensures
            r == self.spec_is_numeric(),
    {
        match self {
            DataType::Int8
            | DataType::Int16
            | DataType::Int32
            | DataType::Int64
            | DataType::Uint8
            | DataType::Uint16
            | DataType::Uint32
            | DataType::Uint64
            | DataType::Float
            | DataType::Decimal
            | DataType::Double => true,
            _ => false,
        }
    }

    pub fn is_any(&self) -> (r: bool)
        ensures
            r == (*self == DataType::Any),
    {
        *self == DataType::Any
    }

    pub fn is_null(&self) -> (r: bool)
        ensures
            r == (*self == DataType::Null),
    {
        *self == DataType::Null
    }
}


/// Position of the last field named `name`, if any.
pub open spec fn find_name(fields: Seq<Field>, name: Seq<char>) -> Option<int>
    decreases fields.len(),
{
    if fields.len() == 0 {
        None
    } else if fields.last().name@ == name {
        Some(fields.len() - 1)
    } else {
        find_name(fields.drop_last(), name)
    }
}

/// What `find_name` finds: the last position holding the name, or none when no field has it.
pub proof fn lemma_find_name(fields: Seq<Field>, name: Seq<char>)
    ensures
        match find_name(fields, name) {
            Some(i) => 0 <= i < fields.len() && fields[i].name@ == name && forall|j: int|
                i < j < fields.len() ==> (#[trigger] fields[j]).name@ != name,
            None => forall|j: int| 0 <= j < fields.len() ==> (#[trigger] fields[j]).name@ != name,
        },
    decreases fields.len(),
{
    if fields.len() > 0 {
        lemma_find_name(fields.drop_last(), name);
        if fields.last().name@ != name {
            match find_name(fields.drop_last(), name) {
                Some(i) => {
                    assert forall|j: int| i < j < fields.len() implies (#[trigger] fields[j]).name@
                        != name by {
                        if j < fields.len() - 1 {
                            assert(fields.drop_last()[j] == fields[j]);
                        }
                    }
                },
                None => {
                    assert forall|j: int| 0 <= j < fields.len() implies (#[trigger] fields[j]).name@
                        != name by {
                        if j < fields.len() - 1 {
                            assert(fields.drop_last()[j] == fields[j]);
                        }
                    }
                },
            }
        }
    }
}

/// A column's descriptor: its name, type, whether it holds nulls, a default and a note.
#[derive(Debug, PartialEq)]
pub struct Field {
    pub name: String,
    pub nullable: bool,
    pub default: Option<Value>,
    pub doc: Option<String>,
    pub dtype: DataType,
}

impl Field {
    /// The same descriptor: equal name, flags, type and note, an equivalent default.
    pub open spec fn same(self, other: Field) -> bool {
        &&& self.name@ == other.name@
        &&& self.nullable == other.nullable
        &&& self.dtype == other.dtype
        &&& match (self.doc, other.doc) {
            (None, None) => true,
            (Some(a), Some(b)) => a@ == b@,
            _ => false,
        }
        &&& match (self.default, other.default) {
            (None, None) => true,
            (Some(a), Some(b)) => a.same(b),
            _ => false,
        }
    }

    /// A weakly typed, nullable field.
    pub fn new(name: &str) -> (r: Field)
        ensures
            r.name@ == name@,
            r.dtype == DataType::Any,
            r.nullable,
            r.default is None,
            r.doc is None,
    {
        Field {
            name: String::from_str(name),
            nullable: true,
            default: None,
            doc: None,
            dtype: DataType::Any,
        }
    }

    pub fn with_type(name: &str, dt: DataType) -> (r: Field)
        ensures
            r.name@ == name@,
            r.dtype == dt,
            r.nullable,
            r.default is None,
            r.doc is None,
    {
        Field {
            name: String::from_str(name),
            dtype: dt,
            nullable: true,
            default: None,
            doc: None,
        }
    }

    pub fn dtype(&self) -> (r: &DataType)
        ensures
            *r == self.dtype,
    {
        &self.dtype
    }
}

impl Clone for Field {
    fn clone(&self) -> (r: Field)
        ensures
            r.same(*self),
    {
        Field {
            name: self.name.clone(),
            nullable: self.nullable,
            default: match &self.default {
                Some(v) => Some(v.clone()),
                None => None,
            },
            doc: match &self.doc {
                Some(d) => Some(d.clone()),
                None => None,
            },
            dtype: self.dtype,
        }
    }
}

/// An ordered collection of fields; a field's position is its column's position.
#[derive(Debug)]
pub struct Schema {
    name: Option<String>,
    doc: Option<String>,
    fields: Vec<Field>,
}

impl Schema {
    /// The fields, in column order.
    pub closed spec fn spec_fields(self) -> Seq<Field> {
        self.fields@
    }

    pub open spec fn names(self) -> Seq<Seq<char>> {
        self.spec_fields().map_values(|f: Field| f.name@)
    }

    pub open spec fn spec_len(self) -> nat {
        self.spec_fields().len()
    }

    /// Position of the field a name refers to: the last one that carries it.
    pub open spec fn position(self, name: Seq<char>) -> Option<int> {
        find_name(self.spec_fields(), name)
    }

    pub open spec fn spec_is_weak(self) -> bool {
        exists|i: int| 0 <= i < self.spec_len() && (#[trigger] self.spec_fields()[i]).dtype == DataType::Any
    }

    pub fn new() -> (r: Schema)
        ensures
            r.spec_fields().len() == 0,
    {
        Schema { name: None, doc: None, fields: Vec::new() }
    }

    pub fn with_size(size: usize) -> (r: Schema)
        ensures
            r.spec_fields().len() == 0,
    {
        Schema { name: None, doc: None, fields: Vec::with_capacity(size) }
    }

    pub fn with_fields(fields: Vec<Field>) -> (r: Schema)
        ensures
            r.spec_fields() == fields@,
    {
        Schema { name: None, doc: None, fields }
    }

    /// A schema of weakly typed fields with the given names.
    pub fn from_names(columns: &[&str]) -> (r: Schema)
        ensures
            r.names() == columns@.map_values(|s: &str| s@),
            forall|i: int| 0 <= i < r.spec_len() ==> (#[trigger] r.spec_fields()[i]).dtype
                == DataType::Any,
    {
        let mut schema = Schema::new();
        let mut i: usize = 0;
        while i < columns.len()
            invariant
                i <= columns@.len(),
                schema.spec_fields().len() == i,
                forall|j: int| 0 <= j < i ==> (#[trigger] schema.spec_fields()[j]).name@
                    == columns@[j]@,
                forall|j: int| 0 <= j < i ==> (#[trigger] schema.spec_fields()[j]).dtype
                    == DataType::Any,
            decreases columns@.len() - i,
        {
            let ghost prev = schema.spec_fields();
            schema.add_field(columns[i]);
            assert forall|j: int| 0 <= j < i implies #[trigger] schema.spec_fields()[j] == prev[j] by {
                assert(schema.spec_fields().drop_last()[j] == schema.spec_fields()[j]);
            }
            i += 1;
        }
        assert(schema.names() =~= columns@.map_values(|s: &str| s@));
        schema
    }

    /// Append a weakly typed field named `name`; returns its position.
    pub fn add_field(&mut self, name: &str) -> (r: usize)
        ensures
            r == old(self).spec_len(),
            final(self).spec_fields().len() == old(self).spec_fields().len() + 1,
            final(self).spec_fields().drop_last() == old(self).spec_fields(),
            final(self).spec_fields().last().name@ == name@,
            final(self).spec_fields().last().dtype == DataType::Any,
    {
        self.push_field(Field::new(name))
    }

    /// Append a field; returns its position.
    pub fn push_field(&mut self, field: Field) -> (r: usize)
        ensures
            r == old(self).spec_len(),
            final(self).spec_fields() == old(self).spec_fields().push(field),
    {
        let index = self.fields.len();
        self.fields.push(field);
        assert(self.fields@.drop_last() =~= old(self).fields@);
        index
    }

    pub fn find_index(&self, name: &str) -> (r: Option<usize>)
        ensures
            r matches Some(i) ==> self.position(name@) == Some(i as int),
            r is None ==> self.position(name@) is None,
    {
        let mut i: usize = self.fields.len();
        assert(self.fields@.subrange(0, i as int) =~= self.fields@);
        while i > 0
            invariant
                i <= self.fields@.len(),
                find_name(self.fields@, name@) == find_name(self.fields@.subrange(0, i as int), name@),
            decreases i,
        {
            let ghost pre = self.fields@.subrange(0, i as int);
            assert(pre.drop_last() =~= self.fields@.subrange(0, i - 1));
            if str_eq(self.fields[i - 1].name.as_str(), name) {
                assert(self.spec_fields() == self.fields@);
                return Some(i - 1);
            }
            i -= 1;
        }
        assert(self.fields@.subrange(0, 0) =~= Seq::<Field>::empty());
        assert(self.spec_fields() == self.fields@);
        None
    }

    pub fn get_field_full(&self, name: &str) -> (r: Option<(usize, &Field)>)
        ensures
            match self.position(name@) {
                Some(i) => r matches Some(p) && p.0 == i && *p.1 == self.spec_fields()[i],
                None => r is None,
            },
    {
        proof {
            lemma_find_name(self.fields@, name@);
            assert(self.spec_fields() == self.fields@);
        }
        match self.find_index(name) {
            Some(i) => Some((i, &self.fields[i])),
            None => None,
        }
    }

    pub fn get_field(&self, name: &str) -> (r: Option<&Field>)
        ensures
            match self.position(name@) {
                Some(i) => r == Some(&self.spec_fields()[i]),
                None => r is None,
            },
    {
        proof {
            lemma_find_name(self.fields@, name@);
            assert(self.spec_fields() == self.fields@);
        }
        let r = self.find_index(name);
        assert(self.spec_fields() == self.fields@);
        match r {
            Some(i) => {
                assert(self.position(name@) == Some(i as int));
                Some(&self.fields[i])
            },
            None => None,
        }
    }

    pub fn find_field(&self, name: &str) -> (r: Option<&Field>)
        ensures
            match self.position(name@) {
                Some(i) => r == Some(&self.spec_fields()[i]),
                None => r is None,
            },
    {
        self.get_field(name)
    }

    pub fn get_field_mut(&mut self, name: &str) -> (r: Option<&mut Field>)
        ensures
            match old(self).position(name@) {
                Some(i) => r matches Some(f) && *f == old(self).spec_fields()[i]
                    && final(self).spec_fields() == old(self).spec_fields().update(i, *final(f)),
                None => r is None && *final(self) == *old(self),
            },
    {
        proof {
            lemma_find_name(self.fields@, name@);
            assert(self.spec_fields() == self.fields@);
        }
        match self.find_index(name) {
            Some(i) => Some(&mut self.fields[i]),
            None => None,
        }
    }

    pub fn has_field(&self, name: &str) -> (r: bool)
        ensures
            r == self.position(name@) is Some,
    {
        self.find_index(name).is_some()
    }

    pub fn field_exists(&self, name: &str) -> (r: bool)
        ensures
            r == self.position(name@) is Some,
    {
        self.find_index(name).is_some()
    }

    pub fn find_by_index(&self, index: usize) -> (r: Option<&Field>)
        ensures
            index < self.spec_len() ==> r == Some(&self.spec_fields()[index as int]),
            index >= self.spec_len() ==> r is None,
    {
        if index < self.fields.len() {
            Some(&self.fields[index])
        } else {
            None
        }
    }

    /// The names of the fields, in column order.
    pub fn field_names(&self) -> (r: Vec<String>)
        ensures
            r@.map_values(|s: String| s@) == self.names(),
    {
        let mut out: Vec<String> = Vec::new();
        let mut i: usize = 0;
        while i < self.fields.len()
            invariant
                i <= self.fields@.len(),
                out@.len() == i,
                forall|j: int| 0 <= j < i ==> (#[trigger] out@[j])@ == self.fields@[j].name@,
            decreases self.fields@.len() - i,
        {
            out.push(self.fields[i].name.clone());
            i += 1;
        }
        assert(out@.map_values(|s: String| s@) =~= self.names());
        out
    }

    /// Remove the field a name refers to, and return it.
    pub fn remove(&mut self, name: &str) -> (r: Option<Field>)
        ensures
            match old(self).position(name@) {
                Some(i) => r == Some(old(self).spec_fields()[i]) && final(self).spec_fields()
                    == old(self).spec_fields().remove(i),
                None => r is None && final(self).spec_fields() == old(self).spec_fields(),
            },
    {
        proof {
            lemma_find_name(self.fields@, name@);
            assert(self.spec_fields() == self.fields@);
        }
        match self.find_index(name) {
            Some(i) => Some(self.fields.remove(i)),
            None => None,
        }
    }

    /// Give the field at a position a type and a nullability.
    pub fn set_type(&mut self, index: usize, dtype: DataType, nullable: bool)
        requires
            index < old(self).spec_len(),
        ensures
            final(self).spec_fields().len() == old(self).spec_fields().len(),
            final(self).spec_fields()[index as int].dtype == dtype,
            final(self).spec_fields()[index as int].nullable == nullable,
            final(self).spec_fields()[index as int].name == old(self).spec_fields()[index as int].name,
            final(self).spec_fields()[index as int].default == old(self).spec_fields()[index as int].default,
            final(self).spec_fields()[index as int].doc == old(self).spec_fields()[index as int].doc,
            forall|j: int| 0 <= j < old(self).spec_len() && j != index ==> final(self).spec_fields()[j]
                == old(self).spec_fields()[j],
    {
        let f = &mut self.fields[index];
        f.dtype = dtype;
        f.nullable = nullable;
    }

    /// Whether the field at a position may hold nulls.
    pub fn spec_nullable_at(&self, index: usize) -> (r: bool)
        requires
            index < self.spec_len(),
        ensures
            r == self.spec_fields()[index as int].nullable,
    {
        self.fields[index].nullable
    }

    /// Remove the field at a position, and return it.
    pub fn remove_at(&mut self, index: usize) -> (r: Field)
        requires
            index < old(self).spec_len(),
        ensures
            r == old(self).spec_fields()[index as int],
            final(self).spec_fields() == old(self).spec_fields().remove(index as int),
    {
        self.fields.remove(index)
    }

    /// Give the field a name refers to a new name; `None`, and nothing changed, when no field
    /// carries the old name.
    pub fn rename_field(&mut self, old_name: &str, new_name: &str) -> (r: Option<String>)
        ensures
            match old(self).position(old_name@) {
                Some(i) => r matches Some(n) && n@ == new_name@ && final(self).spec_fields().len()
                    == old(self).spec_fields().len() && final(self).spec_fields()[i].name@
                    == new_name@ && final(self).spec_fields()[i].dtype == old(self).spec_fields()[i].dtype
                    && forall|j: int|
                    0 <= j < old(self).spec_len() && j != i ==> final(self).spec_fields()[j]
                        == old(self).spec_fields()[j],
                None => r is None && final(self).spec_fields() == old(self).spec_fields(),
            },
    {
        proof {
            lemma_find_name(self.fields@, old_name@);
            assert(self.spec_fields() == self.fields@);
        }
        match self.find_index(old_name) {
            Some(i) => {
                let field = &mut self.fields[i];
                field.name = String::from_str(new_name);
                Some(String::from_str(new_name))
            },
            None => None,
        }
    }

    /// Whether some field is weakly typed.
    pub fn is_weak(&self) -> (r: bool)
        ensures
            r == self.spec_is_weak(),
    {
        let mut i: usize = 0;
        while i < self.fields.len()
            invariant
                i <= self.fields@.len(),
                forall|j: int| 0 <= j < i ==> (#[trigger] self.fields@[j]).dtype != DataType::Any,
            decreases self.fields@.len() - i,
        {
            if self.fields[i].dtype == DataType::Any {
                assert(self.spec_fields()[i as int].dtype == DataType::Any);
                return true;
            }
            i += 1;
        }
        false
    }

    pub fn len(&self) -> (r: usize)
        ensures
            r == self.spec_len(),
    {
        self.fields.len()
    }

    pub fn is_empty(&self) -> (r: bool)
        ensures
            r == (self.spec_len() == 0),
    {
        self.fields.len() == 0
    }

    pub fn clear(&mut self)
        ensures
            final(self).spec_len() == 0,
    {
        self.fields.clear();
        self.name = None;
        self.doc = None;
    }
}

impl Default for Schema {
    fn default() -> (r: Schema)
        ensures
            r.spec_fields().len() == 0,
    {
        Schema::new()
    }
}

} // verus!
