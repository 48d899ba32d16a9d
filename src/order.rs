use vstd::prelude::*;

use core::cmp::Ordering;

use crate::number::{Decimal, Num, Number};
use crate::value::{lemma_text_lt_total, text_less, text_lt, Value};
use crate::text::str_eq;

verus! {

/// How `a` compares with `b`.
pub open spec fn ordering_of(a: int, b: int) -> Ordering {
    if a < b {
        Ordering::Less
    } else if a == b {
        Ordering::Equal
    } else {
        Ordering::Greater
    }
}

pub open spec fn pow10(n: nat) -> int
    decreases n,
{
    if n == 0 {
        1
    } else {
        10 * pow10((n - 1) as nat)
    }
}

/// Relies on rust_decimal's `Ord for Decimal`, which compares the numbers' values:
/// `m1 / 10^s1` against `m2 / 10^s2`.
#[verifier::external_body]
fn decimal_cmp(m1: i128, s1: u32, m2: i128, s2: u32) -> (r: Ordering)
    requires
        Decimal::valid(m1 as int, s1 as int),
        Decimal::valid(m2 as int, s2 as int),
    ensures
        r == ordering_of(m1 * pow10(s2 as nat), m2 * pow10(s1 as nat)),
{
    rust_decimal::Decimal::from_i128_with_scale(m1, s1).cmp(
        &rust_decimal::Decimal::from_i128_with_scale(m2, s2),
    )
}

/// Relies on chrono's `Ord for NaiveDateTime`, which orders dates in time.
#[verifier::external_body]
fn date_cmp(a: &chrono::NaiveDateTime, b: &chrono::NaiveDateTime) -> (r: Ordering) {
    a.cmp(b)
}

/// The place of a binary32 number on the line of values, from its bits: its signed
/// magnitude, both zeros at 0; `None` for a NaN.
pub open spec fn f32_key(bits: u32) -> Option<int> {
    let mag = bits % 0x8000_0000;
    if mag > 0x7f80_0000 {
        None
    } else if bits >= 0x8000_0000 {
        Some(-(mag as int))
    } else {
        Some(mag as int)
    }
}

/// The place of a binary64 number on the line of values, from its bits (see `f32_key`).
pub open spec fn f64_key(bits: u64) -> Option<int> {
    let mag = bits % 0x8000_0000_0000_0000;
    if mag > 0x7ff0_0000_0000_0000 {
        None
    } else if bits >= 0x8000_0000_0000_0000 {
        Some(-(mag as int))
    } else {
        Some(mag as int)
    }
}

/// Lexicographic order of byte strings.
pub open spec fn bytes_order(a: Seq<u8>, b: Seq<u8>) -> Ordering
    decreases a.len(),
{
    if a.len() == 0 {
        if b.len() == 0 {
            Ordering::Equal
        } else {
            Ordering::Less
        }
    } else if b.len() == 0 {
        Ordering::Greater
    } else if a[0] != b[0] {
        ordering_of(a[0] as int, b[0] as int)
    } else {
        bytes_order(a.drop_first(), b.drop_first())
    }
}

/// How two numbers compare: integers of one width and decimals by value, floats of one
/// width by value unless one is a NaN; numbers of different widths do not compare.
pub open spec fn number_order(a: Number, b: Number) -> Option<Ordering> {
    match (a.0, b.0) {
        (Num::Float(x), Num::Float(y)) => match (f32_key(x), f32_key(y)) {
            (Some(i), Some(j)) => Some(ordering_of(i, j)),
            _ => None,
        },
        (Num::Double(x), Num::Double(y)) => match (f64_key(x), f64_key(y)) {
            (Some(i), Some(j)) => Some(ordering_of(i, j)),
            _ => None,
        },
        (Num::Decimal(x), Num::Decimal(y)) => Some(
            ordering_of(
                x.spec_mantissa() * pow10(y.spec_scale() as nat),
                y.spec_mantissa() * pow10(x.spec_scale() as nat),
            ),
        ),
        _ => if a.0.dtype() == b.0.dtype() && a.0.int_value() is Some {
            Some(ordering_of(a.0.int_value().unwrap(), b.0.int_value().unwrap()))
        } else {
            None
        },
    }
}

proof fn lemma_bytes_order_skip(a: Seq<u8>, b: Seq<u8>, i: int)
    requires
        0 <= i <= a.len(),
        i <= b.len(),
        a.take(i) == b.take(i),
    ensures
        bytes_order(a, b) == bytes_order(a.skip(i), b.skip(i)),
    decreases i,
{
    if i > 0 {
        assert(a[0] == a.take(i)[0]);
        assert(b[0] == b.take(i)[0]);
        assert(a.drop_first().take(i - 1) =~= a.take(i).drop_first());
        assert(b.drop_first().take(i - 1) =~= b.take(i).drop_first());
        lemma_bytes_order_skip(a.drop_first(), b.drop_first(), i - 1);
        assert(a.drop_first().skip(i - 1) =~= a.skip(i));
        assert(b.drop_first().skip(i - 1) =~= b.skip(i));
    } else {
        assert(a.skip(0) =~= a);
        assert(b.skip(0) =~= b);
    }
}

fn compare_ints(a: i128, b: i128) -> (r: Ordering)
    ensures
        r == ordering_of(a as int, b as int),
{
    if a < b {
        Ordering::Less
    } else if a == b {
        Ordering::Equal
    } else {
        Ordering::Greater
    }
}

fn compare_bytes(a: &Vec<u8>, b: &Vec<u8>) -> (r: Ordering)
    ensures
        r == bytes_order(a@, b@),
{
    let n = a.len();
    let m = b.len();
    let mut i: usize = 0;
    while i < n && i < m && a[i] == b[i]
        invariant
            n == a@.len(),
            m == b@.len(),
            i <= n,
            i <= m,
            a@.take(i as int) == b@.take(i as int),
        decreases n - i,
    {
        proof {
            assert(a@.take(i + 1) =~= a@.take(i as int).push(a@[i as int]));
            assert(b@.take(i + 1) =~= b@.take(i as int).push(b@[i as int]));
        }
        i += 1;
    }
    proof {
        lemma_bytes_order_skip(a@, b@, i as int);
    }
    if i == n {
        if i == m {
            Ordering::Equal
        } else {
            Ordering::Less
        }
    } else if i == m {
        Ordering::Greater
    } else {
        compare_ints(a[i] as i128, b[i] as i128)
    }
}

fn float32_key(bits: u32) -> (r: Option<i128>)
    ensures
        match f32_key(bits) {
            Some(k) => r == Some(k as i128),
            None => r is None,
        },
{
    let mag = bits % 0x8000_0000;
    if mag > 0x7f80_0000 {
        None
    } else if bits >= 0x8000_0000 {
        Some(-(mag as i128))
    } else {
        Some(mag as i128)
    }
}

fn float64_key(bits: u64) -> (r: Option<i128>)
    ensures
        match f64_key(bits) {
            Some(k) => r == Some(k as i128),
            None => r is None,
        },
{
    let mag = bits % 0x8000_0000_0000_0000;
    if mag > 0x7ff0_0000_0000_0000 {
        None
    } else if bits >= 0x8000_0000_0000_0000 {
        Some(-(mag as i128))
    } else {
        Some(mag as i128)
    }
}

fn compare_keys(a: Option<i128>, b: Option<i128>) -> (r: Option<Ordering>)
    ensures
        match (a, b) {
            (Some(i), Some(j)) => r == Some(ordering_of(i as int, j as int)),
            _ => r is None,
        },
{
    match (a, b) {
        (Some(i), Some(j)) => Some(compare_ints(i, j)),
        _ => None,
    }
}

impl Number {
    /// How two numbers compare (see `number_order`).
    pub fn partial_cmp(&self, other: &Number) -> (r: Option<Ordering>)
        ensures
            r == number_order(*self, *other),
    {
        match (self.0, other.0) {
            (Num::Float(x), Num::Float(y)) => compare_keys(float32_key(x), float32_key(y)),
            (Num::Double(x), Num::Double(y)) => compare_keys(float64_key(x), float64_key(y)),
            (Num::Decimal(x), Num::Decimal(y)) => {
                let (m1, s1) = x.parts();
                let (m2, s2) = y.parts();
                Some(decimal_cmp(m1, s1, m2, s2))
            },
            _ => {
                let t1 = self.0.type_of_num();
                let t2 = other.0.type_of_num();
                if t1 != t2 {
                    return None;
                }
                match (self.0.int_of(), other.0.int_of()) {
                    (Some(a), Some(b)) => Some(compare_ints(a, b)),
                    _ => None,
                }
            },
        }
    }
}

impl Value {
    /// How two values compare: values of one variant by their contents (texts and byte
    /// strings lexicographically, booleans with `false` first, numbers as `number_order`
    /// says, dates in time); `None` across variants, and for arrays and maps.
    pub fn partial_cmp(&self, other: &Value) -> (r: Option<Ordering>)
        ensures
            match (*self, *other) {
                (Value::Null, Value::Null) => r == Some(Ordering::Equal),
                (Value::Bool(a), Value::Bool(b)) => r == Some(
                    ordering_of(if a { 1 } else { 0 }, if b { 1 } else { 0 }),
                ),
                (Value::String(a), Value::String(b)) => r == Some(
                    if a@ == b@ {
                        Ordering::Equal
                    } else if text_lt(a@, b@) {
                        Ordering::Less
                    } else {
                        Ordering::Greater
                    },
                ),
                (Value::Number(a), Value::Number(b)) => r == number_order(a, b),
                (Value::Binary(a), Value::Binary(b)) => r == Some(bytes_order(a@, b@)),
                (Value::Date(_), Value::Date(_)) => r is Some,
                _ => r is None,
            },
    {
        match (self, other) {
            (Value::Null, Value::Null) => Some(Ordering::Equal),
            (Value::Bool(a), Value::Bool(b)) => Some(
                compare_ints(if *a { 1 } else { 0 }, if *b { 1 } else { 0 }),
            ),
            (Value::String(a), Value::String(b)) => {
                if str_eq(a.as_str(), b.as_str()) {
                    Some(Ordering::Equal)
                } else if text_less(a.as_str(), b.as_str()) {
                    Some(Ordering::Less)
                } else {
                    Some(Ordering::Greater)
                }
            },
            (Value::Number(a), Value::Number(b)) => a.partial_cmp(b),
            (Value::Binary(a), Value::Binary(b)) => Some(compare_bytes(a, b)),
            (Value::Date(a), Value::Date(b)) => Some(date_cmp(a, b)),
            _ => None,
        }
    }
}

} // verus!
