use vstd::prelude::*;
use vstd::string::StrSliceExecFns;
use vstd::string::StringExecFns;

use crate::number::{Num, Number};
use crate::schema::DataType;
use crate::traits::TypeOf;

verus! {

#[verifier::external_type_specification]
#[verifier::external_body]
pub struct ExNaiveDateTime(chrono::NaiveDateTime);

/// Relies on chrono's `Display for NaiveDateTime`.
#[verifier::external_body]
fn date_to_text(d: &chrono::NaiveDateTime) -> (r: String) {
    d.to_string()
}

/// Strict lexicographic order of texts by character code, which is the byte order of their
/// UTF-8 encodings.
pub open spec fn text_lt(a: Seq<char>, b: Seq<char>) -> bool
    decreases a.len(),
{
    if a.len() == 0 {
        b.len() > 0
    } else if b.len() == 0 {
        false
    } else if a[0] == b[0] {
        text_lt(a.drop_first(), b.drop_first())
    } else {
        (a[0] as int) < (b[0] as int)
    }
}

/// The order on texts is strict and total: exactly one of `a < b`, `a == b`, `b < a` holds.
pub proof fn lemma_text_lt_total(a: Seq<char>, b: Seq<char>)
    ensures
        !(text_lt(a, b) && text_lt(b, a)),
        text_lt(a, b) ==> a != b,
        a != b ==> text_lt(a, b) || text_lt(b, a),
    decreases a.len(),
{
    if a.len() > 0 && b.len() > 0 && a[0] == b[0] {
        lemma_text_lt_total(a.drop_first(), b.drop_first());
        if a.drop_first() == b.drop_first() {
            assert(a =~= seq![a[0]] + a.drop_first());
            assert(b =~= seq![b[0]] + b.drop_first());
        }
    } else if a.len() > 0 && b.len() > 0 {
        assert((a[0] as int) != (b[0] as int));
    } else if a.len() == 0 && b.len() == 0 {
        assert(a =~= b);
    }
}

/// The order on texts is transitive.
pub proof fn lemma_text_lt_trans(a: Seq<char>, b: Seq<char>, c: Seq<char>)
    requires
        text_lt(a, b),
        text_lt(b, c),
    ensures
        text_lt(a, c),
    decreases a.len(),
{
    if a.len() > 0 && b.len() > 0 && c.len() > 0 && a[0] == b[0] && b[0] == c[0] {
        lemma_text_lt_trans(a.drop_first(), b.drop_first(), c.drop_first());
    }
}

/// Texts that agree on their first `i` characters compare as what follows them.
proof fn lemma_text_lt_skip(a: Seq<char>, b: Seq<char>, i: int)
    requires
        0 <= i <= a.len(),
        i <= b.len(),
        a.take(i) == b.take(i),
    ensures
        text_lt(a, b) == text_lt(a.skip(i), b.skip(i)),
    decreases i,
{
    if i > 0 {
        assert(a[0] == a.take(i)[0]);
        assert(b[0] == b.take(i)[0]);
        assert(a.drop_first().take(i - 1) =~= a.take(i).drop_first());
        assert(b.drop_first().take(i - 1) =~= b.take(i).drop_first());
        lemma_text_lt_skip(a.drop_first(), b.drop_first(), i - 1);
        assert(a.drop_first().skip(i - 1) =~= a.skip(i));
        assert(b.drop_first().skip(i - 1) =~= b.skip(i));
    } else {
        assert(a.skip(0) =~= a);
        assert(b.skip(0) =~= b);
    }
}

/// Whether `a` comes strictly before `b`.
pub fn text_less(a: &str, b: &str) -> (r: bool)
    ensures
        r == text_lt(a@, b@),
{
    let n = a.unicode_len();
    let m = b.unicode_len();
    let mut i: usize = 0;
    while i < n && i < m && a.get_char(i) == b.get_char(i)
        invariant
            n == a@.len(),
            m == b@.len(),
            i <= n,
            i <= m,
            a@.take(i as int) == b@.take(i as int),
        decreases n - i,
    {
        proof {
            assert(a@.take(i + 1) =~= a@.take(i as int).push(a@[i as int]));
            assert(b@.take(i + 1) =~= b@.take(i as int).push(b@[i as int]));
        }
        i += 1;
    }
    proof {
        lemma_text_lt_skip(a@, b@, i as int);
    }
    if i == n {
        i < m
    } else if i == m {
        false
    } else {
        let x = a.get_char(i);
        let y = b.get_char(i);
        (x as u32) < (y as u32)
    }
}

/// Keys in strictly increasing order, hence unique.
pub open spec fn keys_sorted(s: Seq<(String, Value)>) -> bool {
    forall|i: int, j: int| 0 <= i < j < s.len() ==> text_lt(#[trigger] s[i].0@, #[trigger] s[j].0@)
}

/// A map from text keys to values, its entries kept in increasing key order.
#[derive(Debug, PartialEq)]
pub struct Object {
    inner: Vec<(String, Value)>,
}

/// A dynamically typed cell value.
#[derive(Debug, PartialEq)]
pub enum Value {
    Null,
    Bool(bool),
    String(String),
    Array(Vec<Value>),
    Object(Object),
    Number(Number),
    Date(chrono::NaiveDateTime),
    Binary(Vec<u8>),
}

impl Object {
    #[verifier::type_invariant]
    spec fn inv(self) -> bool {
        keys_sorted(self.inner@)
    }

    /// The entries, in increasing key order.
    pub closed spec fn entries(self) -> Seq<(String, Value)> {
        self.inner@
    }

    /// Deep equivalence of two maps: the same keys in the same order, with equivalent values.
    pub closed spec fn same(self, other: Object) -> bool
        decreases self, 0int,
    {
        self.inner@.len() == other.inner@.len() && forall|i: int|
            0 <= i < self.inner@.len() ==> (#[trigger] self.inner@[i]).0@ == other.inner@[i].0@
                && self.inner@[i].1.same(other.inner@[i].1)
    }

    /// Every map is equivalent to itself.
    pub proof fn lemma_same_refl(self)
        ensures
            self.same(self),
        decreases self, 0int,
    {
        assert forall|i: int| 0 <= i < self.inner@.len() implies (#[trigger] self.inner@[i]).0@
            == self.inner@[i].0@ && self.inner@[i].1.same(self.inner@[i].1) by {
            assert(decreases_to!(self => self.inner));
            assert(decreases_to!(self.inner => self.inner[i]));
            assert(decreases_to!(self.inner[i] => self.inner[i].1));
            self.inner@[i].1.lemma_same_refl();
        }
    }

    pub fn new() -> (r: Object)
        ensures
            r.entries().len() == 0,
    {
        Object { inner: Vec::new() }
    }

    pub fn len(&self) -> (r: usize)
        ensures
            r == self.entries().len(),
    {
        self.inner.len()
    }

    pub fn is_empty(&self) -> (r: bool)
        ensures
            r == (self.entries().len() == 0),
    {
        self.inner.len() == 0
    }

    pub fn clear(&mut self)
        ensures
            final(self).entries().len() == 0,
    {
        self.inner = Vec::new();
    }

    /// The value under `key`, if any.
    pub fn get(&self, key: &str) -> (r: Option<&Value>)
        ensures
            r matches Some(v) ==> exists|i: int|
                0 <= i < self.entries().len() && (#[trigger] self.entries()[i]).0@ == key@ && *v
                    == self.entries()[i].1,
            r is None ==> forall|i: int|
                0 <= i < self.entries().len() ==> (#[trigger] self.entries()[i]).0@ != key@,
    {
        match self.position(key) {
            Some(i) => Some(&self.inner[i].1),
            None => None,
        }
    }

    pub fn contains_key(&self, key: &str) -> (r: bool)
        ensures
            r == exists|i: int|
                0 <= i < self.entries().len() && (#[trigger] self.entries()[i]).0@ == key@,
    {
        self.position(key).is_some()
    }

    fn position(&self, key: &str) -> (r: Option<usize>)
        ensures
            r matches Some(i) ==> i < self.entries().len() && self.entries()[i as int].0@ == key@,
            r is None ==> forall|i: int|
                0 <= i < self.entries().len() ==> (#[trigger] self.entries()[i]).0@ != key@,
    {
        let mut i: usize = 0;
        while i < self.inner.len()
            invariant
                i <= self.inner@.len(),
                forall|j: int| 0 <= j < i ==> (#[trigger] self.inner@[j]).0@ != key@,
            decreases self.inner@.len() - i,
        {
            if crate::text::str_eq(self.inner[i].0.as_str(), key) {
                return Some(i);
            }
            i += 1;
        }
        None
    }

    /// Put `value` under `key`; returns the value it replaces, if any. Entries stay in key
    /// order.
    pub fn insert(&mut self, key: String, value: Value) -> (r: Option<Value>)
        ensures
            match r {
                Some(old_value) => exists|i: int|
                    0 <= i < old(self).entries().len() && (#[trigger] old(self).entries()[i]).0@
                        == key@ && old_value == old(self).entries()[i].1 && final(self).entries()
                        == old(self).entries().update(i, (old(self).entries()[i].0, value)),
                None => (forall|i: int|
                    0 <= i < old(self).entries().len() ==> (#[trigger] old(self).entries()[i]).0@
                        != key@) && exists|i: int|
                    0 <= i <= old(self).entries().len() && final(self).entries()
                        == old(self).entries().insert(i, (key, value)),
            },
    {
        proof {
            use_type_invariant(&*self);
        }
        let mut taken = Object::new();
        std::mem::swap(self, &mut taken);
        let Object { inner: mut entries } = taken;
        assert(entries@ == old(self).inner@);
        assert(old(self).entries() == old(self).inner@);
        let n = entries.len();
        let mut i: usize = 0;
        while i < n && text_less(entries[i].0.as_str(), key.as_str())
            invariant
                n == entries@.len(),
                i <= n,
                keys_sorted(entries@),
                forall|j: int| 0 <= j < i ==> text_lt((#[trigger] entries@[j]).0@, key@),
            decreases n - i,
        {
            i += 1;
        }
        if i < n && crate::text::str_eq(entries[i].0.as_str(), key.as_str()) {
            let ghost before = entries@;
            let entry = entries.remove(i);
            let k = entry.0;
            entries.insert(i, (k, value));
            proof {
                assert(entries@ =~= before.update(i as int, (before[i as int].0, value)));
                assert(before == old(self).inner@);
                assert(keys_sorted(entries@)) by {
                    assert forall|a: int, b: int| 0 <= a < b < entries@.len() implies text_lt(
                        #[trigger] entries@[a].0@,
                        #[trigger] entries@[b].0@,
                    ) by {
                        assert(text_lt(before[a].0@, before[b].0@));
                    }
                }
            }
            *self = Object { inner: entries };
            assert(self.entries() == self.inner@);
            assert(0 <= i < old(self).entries().len() && old(self).entries()[i as int].0@ == key@
                && entry.1 == old(self).entries()[i as int].1 && self.entries()
                == old(self).entries().update(i as int, (old(self).entries()[i as int].0, value)));
            return Some(entry.1);
        }
        proof {
            assert forall|j: int| 0 <= j < n implies (#[trigger] entries@[j]).0@ != key@ by {
                if j < i {
                    lemma_text_lt_total(entries@[j].0@, key@);
                } else {
                    lemma_text_lt_total(entries@[i as int].0@, key@);
                    if j > i {
                        assert(text_lt(entries@[i as int].0@, entries@[j].0@));
                        lemma_text_lt_trans(key@, entries@[i as int].0@, entries@[j].0@);
                        lemma_text_lt_total(key@, entries@[j].0@);
                    }
                }
            }
        }
        let ghost before = entries@;
        let ghost k = key@;
        let ghost kk = key;
        entries.insert(i, (key, value));
        proof {
            assert(keys_sorted(entries@)) by {
                assert forall|a: int, b: int| 0 <= a < b < entries@.len() implies text_lt(
                    #[trigger] entries@[a].0@,
                    #[trigger] entries@[b].0@,
                ) by {
                    if b < i {
                        assert(text_lt(before[a].0@, before[b].0@));
                    } else if b == i {
                    } else if a < i {
                        assert(text_lt(before[a].0@, k));
                        lemma_text_lt_total(before[i as int].0@, k);
                        assert(text_lt(k, before[i as int].0@));
                        if b - 1 > i {
                            assert(text_lt(before[i as int].0@, before[b - 1].0@));
                            lemma_text_lt_trans(k, before[i as int].0@, before[b - 1].0@);
                        }
                        lemma_text_lt_trans(before[a].0@, k, before[b - 1].0@);
                    } else if a == i {
                        lemma_text_lt_total(before[i as int].0@, k);
                        if b - 1 > i {
                            assert(text_lt(before[i as int].0@, before[b - 1].0@));
                            lemma_text_lt_trans(k, before[i as int].0@, before[b - 1].0@);
                        }
                    } else {
                        assert(text_lt(before[a - 1].0@, before[b - 1].0@));
                    }
                }
            }
        }
        *self = Object { inner: entries };
        assert(self.entries() == self.inner@);
        assert(self.inner@ == old(self).inner@.insert(i as int, (kk, value)));
        None
    }

    /// Take out the value under `key`, if any. Entries stay in key order.
    pub fn remove(&mut self, key: &str) -> (r: Option<Value>)
        ensures
            match r {
                Some(v) => exists|i: int|
                    0 <= i < old(self).entries().len() && (#[trigger] old(self).entries()[i]).0@
                        == key@ && v == old(self).entries()[i].1 && final(self).entries()
                        == old(self).entries().remove(i),
                None => (forall|i: int|
                    0 <= i < old(self).entries().len() ==> (#[trigger] old(self).entries()[i]).0@
                        != key@) && final(self).entries() == old(self).entries(),
            },
    {
        proof {
            use_type_invariant(&*self);
        }
        match self.position(key) {
            Some(i) => {
                let mut taken = Object::new();
                std::mem::swap(self, &mut taken);
                let Object { inner: mut entries } = taken;
                let ghost before = entries@;
                let (_, v) = entries.remove(i);
                proof {
                    assert(keys_sorted(entries@)) by {
                        assert forall|a: int, b: int| 0 <= a < b < entries@.len() implies text_lt(
                            #[trigger] entries@[a].0@,
                            #[trigger] entries@[b].0@,
                        ) by {
                            let a0 = if a < i { a } else { a + 1 };
                            let b0 = if b < i { b } else { b + 1 };
                            assert(text_lt(before[a0].0@, before[b0].0@));
                        }
                    }
                }
                *self = Object { inner: entries };
                Some(v)
            },
            None => None,
        }
    }

    /// The keys, in order.
    pub fn keys(&self) -> (r: Vec<String>)
        ensures
            r@.len() == self.entries().len(),
            forall|i: int| 0 <= i < r@.len() ==> (#[trigger] r@[i])@ == self.entries()[i].0@,
    {
        let mut out: Vec<String> = Vec::new();
        let mut i: usize = 0;
        while i < self.inner.len()
            invariant
                i <= self.inner@.len(),
                out@.len() == i,
                forall|j: int| 0 <= j < i ==> (#[trigger] out@[j])@ == self.inner@[j].0@,
            decreases self.inner@.len() - i,
        {
            out.push(self.inner[i].0.clone());
            i += 1;
        }
        out
    }

    /// The values, in key order.
    pub fn values(&self) -> (r: Vec<&Value>)
        ensures
            r@.len() == self.entries().len(),
            forall|i: int| 0 <= i < r@.len() ==> *(#[trigger] r@[i]) == self.entries()[i].1,
    {
        let mut out: Vec<&Value> = Vec::new();
        let mut i: usize = 0;
        while i < self.inner.len()
            invariant
                i <= self.inner@.len(),
                out@.len() == i,
                forall|j: int| 0 <= j < i ==> *(#[trigger] out@[j]) == self.inner@[j].1,
            decreases self.inner@.len() - i,
        {
            out.push(&self.inner[i].1);
            i += 1;
        }
        out
    }

    fn deep_clone(&self) -> (r: Object)
        ensures
            r.same(*self),
            r.entries().len() == self.entries().len(),
        decreases self, 1int,
    {
        proof {
            use_type_invariant(self);
        }
        let mut out: Vec<(String, Value)> = Vec::new();
        let mut i: usize = 0;
        while i < self.inner.len()
            invariant
                i <= self.inner@.len(),
                out@.len() == i,
                keys_sorted(self.inner@),
                forall|j: int| 0 <= j < i ==> (#[trigger] out@[j]).0@ == self.inner@[j].0@,
                forall|j: int| 0 <= j < i ==> (#[trigger] out@[j]).1.same(self.inner@[j].1),
            decreases self.inner@.len() - i,
        {
            let k = self.inner[i].0.clone();
            let v = self.inner[i].1.deep_clone();
            out.push((k, v));
            i += 1;
        }
        let r = Object { inner: out };
        assert(keys_sorted(r.inner@)) by {
            assert forall|a: int, b: int| 0 <= a < b < r.inner@.len() implies text_lt(
                #[trigger] r.inner@[a].0@,
                #[trigger] r.inner@[b].0@,
            ) by {
                assert(text_lt(self.inner@[a].0@, self.inner@[b].0@));
            }
        }
        assert(r.same(*self)) by {
            assert forall|j: int| 0 <= j < r.inner@.len() implies (#[trigger] r.inner@[j]).0@
                == self.inner@[j].0@ && r.inner@[j].1.same(self.inner@[j].1) by {
                assert(out@[j].0@ == self.inner@[j].0@);
                assert(out@[j].1.same(self.inner@[j].1));
            }
        }
        r
    }
}

impl Value {
    /// Deep equivalence: the same variant with the same contents, texts and byte strings
    /// compared by contents, arrays and maps element by element.
    pub open spec fn same(self, other: Value) -> bool
        decreases self, 0int,
    {
        match self {
            Value::String(a) => other matches Value::String(b) && a@ == b@,
            Value::Binary(a) => other matches Value::Binary(b) && a@ == b@,
            Value::Array(a) => other matches Value::Array(b) && a@.len() == b@.len() && forall|
                i: int,
            |
                0 <= i < a@.len() ==> (#[trigger] a@[i]).same(b@[i]),
            Value::Object(m) => other matches Value::Object(n) && m.same(n),
            _ => self == other,
        }
    }

    /// Every value is equivalent to itself.
    pub proof fn lemma_same_refl(self)
        ensures
            self.same(self),
        decreases self, 1int,
    {
        match self {
            Value::Array(a) => {
                assert forall|i: int| 0 <= i < a@.len() implies (#[trigger] a@[i]).same(a@[i]) by {
                    assert(decreases_to!(self => self->Array_0));
                    assert(decreases_to!(a => a[i]));
                    a@[i].lemma_same_refl();
                }
            },
            Value::Object(m) => {
                assert(decreases_to!(self => self->Object_0));
                m.lemma_same_refl();
            },
            _ => {},
        }
    }

    /// Equivalent values have the same type and the same text.
    pub proof fn lemma_same_type(self, other: Value)
        requires
            other.same(self),
        ensures
            other.dtype() == self.dtype(),
            other.known_text() == self.known_text(),
            other is Number ==> other == self,
            other is Bool ==> other == self,
    {
    }

    pub open spec fn dtype(self) -> DataType {
        match self {
            Value::Null => DataType::Any,
            Value::Bool(_) => DataType::Bool,
            Value::String(_) => DataType::String,
            Value::Array(_) => DataType::Array,
            Value::Object(_) => DataType::Object,
            Value::Number(n) => n.0.dtype(),
            Value::Date(_) => DataType::Date,
            Value::Binary(_) => DataType::Binary,
        }
    }

    /// Whether the value is a floating-point number, whose text this library does not write.
    pub open spec fn is_float_number(self) -> bool {
        self matches Value::Number(n) && n.0.is_float_kind()
    }

    fn deep_clone(&self) -> (r: Value)
        ensures
            r.same(*self),
        decreases self, 1int,
    {
        match self {
            Value::Null => Value::Null,
            Value::Bool(b) => Value::Bool(*b),
            Value::String(s) => Value::String(s.clone()),
            Value::Number(n) => Value::Number(*n),
            Value::Date(d) => Value::Date(*d),
            Value::Binary(b) => Value::Binary(b.clone()),
            Value::Object(m) => Value::Object(m.deep_clone()),
            Value::Array(a) => {
                let mut out: Vec<Value> = Vec::new();
                let mut i: usize = 0;
                while i < a.len()
                    invariant
                        i <= a@.len(),
                        *self == Value::Array(*a),
                        out@.len() == i,
                        forall|j: int| 0 <= j < i ==> (#[trigger] out@[j]).same(a@[j]),
                    decreases a@.len() - i,
                {
                    proof {
                        assert(decreases_to!(*a => a[i as int]));
                        assert(decreases_to!(*self => (*self)->Array_0));
                        assert(decreases_to!(*self => a[i as int]));
                    }
                    let v = a[i].deep_clone();
                    out.push(v);
                    i += 1;
                }
                let r = Value::Array(out);
                assert(r.same(*self)) by {
                    assert forall|j: int| 0 <= j < out@.len() implies (#[trigger] out@[j]).same(
                        a@[j],
                    ) by {}
                }
                r
            },
        }
    }

    /// The text of the value, where this library states it: dates are written by chrono and
    /// floating-point numbers are not written here.
    pub open spec fn known_text(self) -> Option<Seq<char>> {
        match self {
            Value::Null => Some("null"@),
            Value::String(s) => Some(s@),
            Value::Number(n) => if n.0.is_float_kind() {
                None
            } else {
                Some(n.0.text())
            },
            Value::Bool(b) => if b {
                Some("true"@)
            } else {
                Some("false"@)
            },
            Value::Date(_) => None,
            Value::Object(_) => Some("display not implemented for map"@),
            Value::Array(_) => Some("display not implemented for array"@),
            Value::Binary(_) => Some("[bin data]"@),
        }
    }

    /// The text of a value: `null`, the text itself, the number, `true` or `false`, the date,
    /// and fixed placeholders for maps, arrays and binary data.
    pub fn to_string(&self) -> (r: String)
        requires
            !self.is_float_number(),
        ensures
            self.known_text() matches Some(t) ==> r@ == t,
    {
        match self {
            Value::Null => String::from_str("null"),
            Value::String(s) => s.clone(),
            Value::Number(n) => n.to_string(),
            Value::Bool(b) => if *b {
                String::from_str("true")
            } else {
                String::from_str("false")
            },
            Value::Date(d) => date_to_text(d),
            Value::Object(_) => String::from_str("display not implemented for map"),
            Value::Array(_) => String::from_str("display not implemented for array"),
            Value::Binary(_) => String::from_str("[bin data]"),
        }
    }

    pub fn is_numeric(&self) -> (r: bool)
        ensures
            r == (*self is Number),
    {
        match self {
            Value::Number(_) => true,
            _ => false,
        }
    }

    pub fn is_null(&self) -> (r: bool)
        ensures
            r == (*self is Null),
    {
        match self {
            Value::Null => true,
            _ => false,
        }
    }
}

impl Clone for Value {
    fn clone(&self) -> (r: Value)
        ensures
            r.same(*self),
    {
        self.deep_clone()
    }
}

impl Clone for Object {
    fn clone(&self) -> (r: Object)
        ensures
            r.same(*self),
    {
        self.deep_clone()
    }
}

impl TypeOf for Value {
    open spec fn spec_type_of(&self) -> DataType {
        self.dtype()
    }

    fn type_of(&self) -> (r: DataType) {
        match self {
            Value::Null => DataType::Any,
            Value::Bool(_) => DataType::Bool,
            Value::String(_) => DataType::String,
            Value::Array(_) => DataType::Array,
            Value::Object(_) => DataType::Object,
            Value::Number(n) => n.type_of(),
            Value::Date(_) => DataType::Date,
            Value::Binary(_) => DataType::Binary,
        }
    }
}

impl From<u8> for Value {
    fn from(v: u8) -> (r: Value)
        ensures
            r == Value::Number(Number(Num::Uint8(v))),
    {
        Value::Number(Number(Num::Uint8(v)))
    }
}

impl vstd::std_specs::convert::FromSpecImpl<u8> for Value {
    open spec fn obeys_from_spec() -> bool {
        true
    }

    open spec fn from_spec(v: u8) -> Value {
        Value::Number(Number(Num::Uint8(v)))
    }
}

impl From<u16> for Value {
    fn from(v: u16) -> (r: Value)
        ensures
            r == Value::Number(Number(Num::Uint16(v))),
    {
        Value::Number(Number(Num::Uint16(v)))
    }
}

impl vstd::std_specs::convert::FromSpecImpl<u16> for Value {
    open spec fn obeys_from_spec() -> bool {
        true
    }

    open spec fn from_spec(v: u16) -> Value {
        Value::Number(Number(Num::Uint16(v)))
    }
}

impl From<u32> for Value {
    fn from(v: u32) -> (r: Value)
        ensures
            r == Value::Number(Number(Num::Uint32(v))),
    {
        Value::Number(Number(Num::Uint32(v)))
    }
}

impl vstd::std_specs::convert::FromSpecImpl<u32> for Value {
    open spec fn obeys_from_spec() -> bool {
        true
    }

    open spec fn from_spec(v: u32) -> Value {
        Value::Number(Number(Num::Uint32(v)))
    }
}

impl From<u64> for Value {
    fn from(v: u64) -> (r: Value)
        ensures
            r == Value::Number(Number(Num::Uint64(v))),
    {
        Value::Number(Number(Num::Uint64(v)))
    }
}

impl vstd::std_specs::convert::FromSpecImpl<u64> for Value {
    open spec fn obeys_from_spec() -> bool {
        true
    }

    open spec fn from_spec(v: u64) -> Value {
        Value::Number(Number(Num::Uint64(v)))
    }
}

impl From<i8> for Value {
    fn from(v: i8) -> (r: Value)
        ensures
            r == Value::Number(Number(Num::Int8(v))),
    {
        Value::Number(Number(Num::Int8(v)))
    }
}

impl vstd::std_specs::convert::FromSpecImpl<i8> for Value {
    open spec fn obeys_from_spec() -> bool {
        true
    }

    open spec fn from_spec(v: i8) -> Value {
        Value::Number(Number(Num::Int8(v)))
    }
}

impl From<i16> for Value {
    fn from(v: i16) -> (r: Value)
        ensures
            r == Value::Number(Number(Num::Int16(v))),
    {
        Value::Number(Number(Num::Int16(v)))
    }
}

impl vstd::std_specs::convert::FromSpecImpl<i16> for Value {
    open spec fn obeys_from_spec() -> bool {
        true
    }

    open spec fn from_spec(v: i16) -> Value {
        Value::Number(Number(Num::Int16(v)))
    }
}

impl From<i32> for Value {
    fn from(v: i32) -> (r: Value)
        ensures
            r == Value::Number(Number(Num::Int32(v))),
    {
        Value::Number(Number(Num::Int32(v)))
    }
}

impl vstd::std_specs::convert::FromSpecImpl<i32> for Value {
    open spec fn obeys_from_spec() -> bool {
        true
    }

    open spec fn from_spec(v: i32) -> Value {
        Value::Number(Number(Num::Int32(v)))
    }
}

impl From<i64> for Value {
    fn from(v: i64) -> (r: Value)
        ensures
            r == Value::Number(Number(Num::Int64(v))),
    {
        Value::Number(Number(Num::Int64(v)))
    }
}

impl vstd::std_specs::convert::FromSpecImpl<i64> for Value {
    open spec fn obeys_from_spec() -> bool {
        true
    }

    open spec fn from_spec(v: i64) -> Value {
        Value::Number(Number(Num::Int64(v)))
    }
}

impl From<bool> for Value {
    fn from(v: bool) -> (r: Value)
        ensures
            r == Value::Bool(v),
    {
        Value::Bool(v)
    }
}

impl vstd::std_specs::convert::FromSpecImpl<bool> for Value {
    open spec fn obeys_from_spec() -> bool {
        true
    }

    open spec fn from_spec(v: bool) -> Value {
        Value::Bool(v)
    }
}

impl From<Number> for Value {
    fn from(v: Number) -> (r: Value)
        ensures
            r == Value::Number(v),
    {
        Value::Number(v)
    }
}

impl vstd::std_specs::convert::FromSpecImpl<Number> for Value {
    open spec fn obeys_from_spec() -> bool {
        true
    }

    open spec fn from_spec(v: Number) -> Value {
        Value::Number(v)
    }
}

impl From<String> for Value {
    fn from(v: String) -> (r: Value)
        ensures
            r == Value::String(v),
    {
        Value::String(v)
    }
}

impl vstd::std_specs::convert::FromSpecImpl<String> for Value {
    open spec fn obeys_from_spec() -> bool {
        true
    }

    open spec fn from_spec(v: String) -> Value {
        Value::String(v)
    }
}

impl From<Vec<Value>> for Value {
    fn from(v: Vec<Value>) -> (r: Value)
        ensures
            r == Value::Array(v),
    {
        Value::Array(v)
    }
}

impl vstd::std_specs::convert::FromSpecImpl<Vec<Value>> for Value {
    open spec fn obeys_from_spec() -> bool {
        true
    }

    open spec fn from_spec(v: Vec<Value>) -> Value {
        Value::Array(v)
    }
}

impl From<&str> for Value {
    fn from(v: &str) -> (r: Value)
        ensures
            r matches Value::String(s) && s@ == v@,
    {
        Value::String(String::from_str(v))
    }
}

/// A text's value holds a copy of the text, which a spec function cannot build; what it
/// holds is stated on `from` itself.
impl vstd::std_specs::convert::FromSpecImpl<&str> for Value {
    open spec fn obeys_from_spec() -> bool {
        false
    }

    open spec fn from_spec(v: &str) -> Value {
        Value::Null
    }
}

} // verus!
