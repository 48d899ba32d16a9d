use vstd::prelude::*;

use crate::schema::DataType;
use crate::text::{int_text, int_to_string, nat_to_string, parse_int_text, parse_integer};
use crate::traits::TypeOf;
use vstd::arithmetic::power2::{
    lemma2_to64, lemma2_to64_rest, lemma_pow2_pos, lemma_pow2_strictly_increases, lemma_pow2_unfold,
    pow2,
};
use vstd::string::StringExecFns;

verus! {

/// Largest magnitude of a decimal's mantissa (96 bits).
pub const MAX_DECIMAL_MANTISSA: i128 = 0xFFFF_FFFF_FFFF_FFFF_FFFF_FFFF;

/// Largest scale of a decimal.
pub const MAX_DECIMAL_SCALE: u32 = 28;

/// Text of the decimal `mantissa * 10^-scale`, as rust_decimal writes it.
pub uninterp spec fn decimal_text(mantissa: int, scale: int) -> Seq<char>;

/// `(mantissa, scale)` of the decimal that rust_decimal reads from a text, if it reads one.
pub uninterp spec fn decimal_parse(s: Seq<char>) -> Option<(int, int)>;

/// Relies on rust_decimal's `Decimal::from_i128_with_scale` (which panics only outside the
/// range that `requires` states) and on its `Display`.
#[verifier::external_body]
fn decimal_to_text(mantissa: i128, scale: u32) -> (r: String)
    requires
        Decimal::valid(mantissa as int, scale as int),
    ensures
        r@ == decimal_text(mantissa as int, scale as int),
{
    rust_decimal::Decimal::from_i128_with_scale(mantissa, scale).to_string()
}

/// Relies on rust_decimal's `FromStr for Decimal`, read back through `mantissa` and `scale`;
/// a parsed decimal has a 96-bit mantissa and a scale of at most 28.
#[verifier::external_body]
fn decimal_from_text(s: &str) -> (r: Option<(i128, u32)>)
    ensures
        match decimal_parse(s@) {
            None => r is None,
            Some(p) => r matches Some(q) && q.0 as int == p.0 && q.1 as int == p.1,
        },
        r matches Some(q) ==> Decimal::valid(q.0 as int, q.1 as int),
{
    s.parse::<rust_decimal::Decimal>().ok().map(|d| (d.mantissa(), d.scale()))
}

/// A fixed-point decimal, `mantissa * 10^-scale`, in the range that rust_decimal holds.
#[derive(Debug, Clone, Copy, PartialEq, Eq, Structural)]
pub struct Decimal {
    mantissa: i128,
    scale: u32,
}

impl Decimal {
    #[verifier::type_invariant]
    spec fn inv(self) -> bool {
        Decimal::valid(self.mantissa as int, self.scale as int)
    }

    pub open spec fn valid(mantissa: int, scale: int) -> bool {
        -MAX_DECIMAL_MANTISSA <= mantissa <= MAX_DECIMAL_MANTISSA && 0 <= scale
            <= MAX_DECIMAL_SCALE
    }

    pub closed spec fn spec_mantissa(self) -> int {
        self.mantissa as int
    }

    pub closed spec fn spec_scale(self) -> int {
        self.scale as int
    }

    pub fn new(mantissa: i128, scale: u32) -> (r: Option<Decimal>)
        ensures
            r is Some <==> Decimal::valid(mantissa as int, scale as int),
            r matches Some(d) ==> d.spec_mantissa() == mantissa && d.spec_scale() == scale,
    {
        if -MAX_DECIMAL_MANTISSA <= mantissa && mantissa <= MAX_DECIMAL_MANTISSA && scale
            <= MAX_DECIMAL_SCALE {
            Some(Decimal { mantissa, scale })
        } else {
            None
        }
    }

    /// The decimal equal to an integer of at most 64 bits.
    pub fn from_int(v: i128) -> (r: Decimal)
        requires
            -0x1_0000_0000_0000_0000 <= v <= 0x1_0000_0000_0000_0000,
        ensures
            r.spec_mantissa() == v,
            r.spec_scale() == 0,
    {
        Decimal { mantissa: v, scale: 0 }
    }

    /// Mantissa and scale, which are in the representable range.
    pub fn parts(&self) -> (r: (i128, u32))
        ensures
            r.0 == self.spec_mantissa(),
            r.1 == self.spec_scale(),
            Decimal::valid(r.0 as int, r.1 as int),
    {
        proof {
            use_type_invariant(self);
        }
        (self.mantissa, self.scale)
    }

    pub fn mantissa(&self) -> (r: i128)
        ensures
            r == self.spec_mantissa(),
    {
        self.mantissa
    }

    pub fn scale(&self) -> (r: u32)
        ensures
            r == self.spec_scale(),
    {
        self.scale
    }

    pub fn to_string(&self) -> (r: String)
        ensures
            r@ == decimal_text(self.spec_mantissa(), self.spec_scale()),
    {
        proof {
            use_type_invariant(self);
        }
        decimal_to_text(self.mantissa, self.scale)
    }

    /// The decimal a text denotes, as rust_decimal reads it.
    pub fn from_str(s: &str) -> (r: Option<Decimal>)
        ensures
            match decimal_parse(s@) {
                None => r is None,
                Some(p) => r matches Some(d) && d.spec_mantissa() == p.0 && d.spec_scale()
                    == p.1,
            },
    {
        match decimal_from_text(s) {
            Some((m, sc)) => Some(Decimal { mantissa: m, scale: sc }),
            None => None,
        }
    }
}


/// Failures of numeric conversions and operations.
#[derive(Debug, Clone, PartialEq, Eq)]
pub enum Error {
    Infallible,
    CastError { description: String },
    /// Cannot convert this datatype into desired type
    IllegalConversion,
    /// Cannot perform this operation on numbers of two different types
    IllegalOperation,
    /// Failed to perform the operation, result may have under or overflowed
    OpFailed,
    ParseStringError { string_source: String, destination_type: DataType },
    /// Failed to parse string to integer value
    ParseIntError { from_str: String },
    /// Failed to parse string to floating point value
    ParseFloatError { from_str: String },
    /// Failed to parse string to decimal value
    ParseDecimalError { from_str: String, description: String },
    /// Attempted to use non numeric data type as numeric
    InvalidDataType { datatype: DataType },
}

/// Smallest value of an integer type.
pub open spec fn int_min(t: DataType) -> int {
    match t {
        DataType::Uint8 => 0,
        DataType::Uint16 => 0,
        DataType::Uint32 => 0,
        DataType::Uint64 => 0,
        DataType::Int8 => -128,
        DataType::Int16 => -32768,
        DataType::Int32 => -2147483648,
        DataType::Int64 => -9223372036854775808,
        _ => 0,
    }
}

/// Largest value of an integer type.
pub open spec fn int_max(t: DataType) -> int {
    match t {
        DataType::Uint8 => 255,
        DataType::Uint16 => 65535,
        DataType::Uint32 => 4294967295,
        DataType::Uint64 => 18446744073709551615,
        DataType::Int8 => 127,
        DataType::Int16 => 32767,
        DataType::Int32 => 2147483647,
        DataType::Int64 => 9223372036854775807,
        _ => -1,
    }
}

/// Whether `v` is a value of the integer type `t`.
pub open spec fn in_range(v: int, t: DataType) -> bool {
    t.is_integer() && int_min(t) <= v <= int_max(t)
}

pub open spec fn is_signed(t: DataType) -> bool {
    t == DataType::Int8 || t == DataType::Int16 || t == DataType::Int32 || t == DataType::Int64
}

/// The numeric payload of a value. Floating-point payloads are held as their IEEE-754 bits.
#[derive(Debug, Clone, Copy, PartialEq, Eq, Structural)]
pub enum Num {
    Uint8(u8),
    Uint16(u16),
    Uint32(u32),
    Uint64(u64),
    Int8(i8),
    Int16(i16),
    Int32(i32),
    Int64(i64),
    /// A 32-bit float, by its bits.
    Float(u32),
    /// A 64-bit float, by its bits.
    Double(u64),
    Decimal(Decimal),
}

impl Num {
    /// The integer an integer payload holds.
    pub open spec fn int_value(self) -> Option<int> {
        match self {
            Num::Uint8(x) => Some(x as int),
            Num::Uint16(x) => Some(x as int),
            Num::Uint32(x) => Some(x as int),
            Num::Uint64(x) => Some(x as int),
            Num::Int8(x) => Some(x as int),
            Num::Int16(x) => Some(x as int),
            Num::Int32(x) => Some(x as int),
            Num::Int64(x) => Some(x as int),
            _ => None,
        }
    }

    pub open spec fn is_float_kind(self) -> bool {
        self is Float || self is Double
    }

    pub open spec fn dtype(self) -> DataType {
        match self {
            Num::Uint8(_) => DataType::Uint8,
            Num::Uint16(_) => DataType::Uint16,
            Num::Uint32(_) => DataType::Uint32,
            Num::Uint64(_) => DataType::Uint64,
            Num::Int8(_) => DataType::Int8,
            Num::Int16(_) => DataType::Int16,
            Num::Int32(_) => DataType::Int32,
            Num::Int64(_) => DataType::Int64,
            Num::Float(_) => DataType::Float,
            Num::Double(_) => DataType::Double,
            Num::Decimal(_) => DataType::Decimal,
        }
    }

    /// The payload of type `t` holding `v`.
    pub open spec fn from_int(v: int, t: DataType) -> Num {
        match t {
            DataType::Uint8 => Num::Uint8(v as u8),
            DataType::Uint16 => Num::Uint16(v as u16),
            DataType::Uint32 => Num::Uint32(v as u32),
            DataType::Uint64 => Num::Uint64(v as u64),
            DataType::Int8 => Num::Int8(v as i8),
            DataType::Int16 => Num::Int16(v as i16),
            DataType::Int32 => Num::Int32(v as i32),
            DataType::Int64 => Num::Int64(v as i64),
            _ => Num::Uint8(0),
        }
    }

    /// Decimal text of an integer payload; rust_decimal's text of a decimal one.
    pub open spec fn text(self) -> Seq<char> {
        match self {
            Num::Decimal(d) => decimal_text(d.spec_mantissa(), d.spec_scale()),
            _ => int_text(self.int_value().unwrap()),
        }
    }

    fn to_i128(&self) -> (r: Option<i128>)
        ensures
            match self.int_value() {
                None => r is None,
                Some(v) => r == Some(v as i128),
            },
    {
        match self {
            Num::Uint8(x) => Some(*x as i128),
            Num::Uint16(x) => Some(*x as i128),
            Num::Uint32(x) => Some(*x as i128),
            Num::Uint64(x) => Some(*x as i128),
            Num::Int8(x) => Some(*x as i128),
            Num::Int16(x) => Some(*x as i128),
            Num::Int32(x) => Some(*x as i128),
            Num::Int64(x) => Some(*x as i128),
            _ => None,
        }
    }

    fn make(v: i128, t: DataType) -> (r: Num)
        requires
            in_range(v as int, t),
        ensures
            r == Num::from_int(v as int, t),
            r.int_value() == Some(v as int),
            r.dtype() == t,
    {
        match t {
            DataType::Uint8 => Num::Uint8(v as u8),
            DataType::Uint16 => Num::Uint16(v as u16),
            DataType::Uint32 => Num::Uint32(v as u32),
            DataType::Uint64 => Num::Uint64(v as u64),
            DataType::Int8 => Num::Int8(v as i8),
            DataType::Int16 => Num::Int16(v as i16),
            DataType::Int32 => Num::Int32(v as i32),
            DataType::Int64 => Num::Int64(v as i64),
            _ => Num::Uint8(0),
        }
    }

    /// The type of the payload.
    pub fn type_of_num(&self) -> (r: DataType)
        ensures
            r == self.dtype(),
    {
        self.type_of()
    }

    /// The integer an integer payload holds.
    pub fn int_of(&self) -> (r: Option<i128>)
        ensures
            match self.int_value() {
                None => r is None,
                Some(v) => r == Some(v as i128),
            },
    {
        self.to_i128()
    }

    pub fn to_string(&self) -> (r: String)
        requires
            !self.is_float_kind(),
        ensures
            r@ == self.text(),
    {
        match self {
            Num::Uint8(x) => nat_to_string(*x as u64),
            Num::Uint16(x) => nat_to_string(*x as u64),
            Num::Uint32(x) => nat_to_string(*x as u64),
            Num::Uint64(x) => nat_to_string(*x as u64),
            Num::Int8(x) => int_to_string(*x as i64),
            Num::Int16(x) => int_to_string(*x as i64),
            Num::Int32(x) => int_to_string(*x as i64),
            Num::Int64(x) => int_to_string(*x as i64),
            Num::Decimal(d) => d.to_string(),
            _ => String::new(),
        }
    }
}

impl TypeOf for Num {
    open spec fn spec_type_of(&self) -> DataType {
        self.dtype()
    }

    fn type_of(&self) -> (r: DataType) {
        match self {
            Num::Uint8(_) => DataType::Uint8,
            Num::Uint16(_) => DataType::Uint16,
            Num::Uint32(_) => DataType::Uint32,
            Num::Uint64(_) => DataType::Uint64,
            Num::Int8(_) => DataType::Int8,
            Num::Int16(_) => DataType::Int16,
            Num::Int32(_) => DataType::Int32,
            Num::Int64(_) => DataType::Int64,
            Num::Float(_) => DataType::Float,
            Num::Double(_) => DataType::Double,
            Num::Decimal(_) => DataType::Decimal,
        }
    }
}

impl From<u8> for Num {
    fn from(v: u8) -> (r: Num)
        ensures
            r == Num::Uint8(v),
    {
        Num::Uint8(v)
    }
}

impl vstd::std_specs::convert::FromSpecImpl<u8> for Num {
    open spec fn obeys_from_spec() -> bool {
        true
    }

    open spec fn from_spec(v: u8) -> Num {
        Num::Uint8(v)
    }
}

impl From<u8> for Number {
    fn from(v: u8) -> (r: Number)
        ensures
            r == Number(Num::Uint8(v)),
    {
        Number(Num::Uint8(v))
    }
}

impl vstd::std_specs::convert::FromSpecImpl<u8> for Number {
    open spec fn obeys_from_spec() -> bool {
        true
    }

    open spec fn from_spec(v: u8) -> Number {
        Number(Num::Uint8(v))
    }
}

impl PartialEq<u8> for Number {
    fn eq(&self, other: &u8) -> (r: bool) {
        match self.0 {
            Num::Uint8(n) => n == *other,
            _ => false,
        }
    }
}

impl vstd::std_specs::cmp::PartialEqSpecImpl<u8> for Number {
    open spec fn obeys_eq_spec() -> bool {
        true
    }

    open spec fn eq_spec(&self, other: &u8) -> bool {
        self.0 == Num::Uint8(*other)
    }
}

impl From<u16> for Num {
    fn from(v: u16) -> (r: Num)
        ensures
            r == Num::Uint16(v),
    {
        Num::Uint16(v)
    }
}

impl vstd::std_specs::convert::FromSpecImpl<u16> for Num {
    open spec fn obeys_from_spec() -> bool {
        true
    }

    open spec fn from_spec(v: u16) -> Num {
        Num::Uint16(v)
    }
}

impl From<u16> for Number {
    fn from(v: u16) -> (r: Number)
        ensures
            r == Number(Num::Uint16(v)),
    {
        Number(Num::Uint16(v))
    }
}

impl vstd::std_specs::convert::FromSpecImpl<u16> for Number {
    open spec fn obeys_from_spec() -> bool {
        true
    }

    open spec fn from_spec(v: u16) -> Number {
        Number(Num::Uint16(v))
    }
}

impl PartialEq<u16> for Number {
    fn eq(&self, other: &u16) -> (r: bool) {
        match self.0 {
            Num::Uint16(n) => n == *other,
            _ => false,
        }
    }
}

impl vstd::std_specs::cmp::PartialEqSpecImpl<u16> for Number {
    open spec fn obeys_eq_spec() -> bool {
        true
    }

    open spec fn eq_spec(&self, other: &u16) -> bool {
        self.0 == Num::Uint16(*other)
    }
}

impl From<u32> for Num {
    fn from(v: u32) -> (r: Num)
        ensures
            r == Num::Uint32(v),
    {
        Num::Uint32(v)
    }
}

impl vstd::std_specs::convert::FromSpecImpl<u32> for Num {
    open spec fn obeys_from_spec() -> bool {
        true
    }

    open spec fn from_spec(v: u32) -> Num {
        Num::Uint32(v)
    }
}

impl From<u32> for Number {
    fn from(v: u32) -> (r: Number)
        ensures
            r == Number(Num::Uint32(v)),
    {
        Number(Num::Uint32(v))
    }
}

impl vstd::std_specs::convert::FromSpecImpl<u32> for Number {
    open spec fn obeys_from_spec() -> bool {
        true
    }

    open spec fn from_spec(v: u32) -> Number {
        Number(Num::Uint32(v))
    }
}

impl PartialEq<u32> for Number {
    fn eq(&self, other: &u32) -> (r: bool) {
        match self.0 {
            Num::Uint32(n) => n == *other,
            _ => false,
        }
    }
}

impl vstd::std_specs::cmp::PartialEqSpecImpl<u32> for Number {
    open spec fn obeys_eq_spec() -> bool {
        true
    }

    open spec fn eq_spec(&self, other: &u32) -> bool {
        self.0 == Num::Uint32(*other)
    }
}

impl From<u64> for Num {
    fn from(v: u64) -> (r: Num)
        ensures
            r == Num::Uint64(v),
    {
        Num::Uint64(v)
    }
}

impl vstd::std_specs::convert::FromSpecImpl<u64> for Num {
    open spec fn obeys_from_spec() -> bool {
        true
    }

    open spec fn from_spec(v: u64) -> Num {
        Num::Uint64(v)
    }
}

impl From<u64> for Number {
    fn from(v: u64) -> (r: Number)
        ensures
            r == Number(Num::Uint64(v)),
    {
        Number(Num::Uint64(v))
    }
}

impl vstd::std_specs::convert::FromSpecImpl<u64> for Number {
    open spec fn obeys_from_spec() -> bool {
        true
    }

    open spec fn from_spec(v: u64) -> Number {
        Number(Num::Uint64(v))
    }
}

impl PartialEq<u64> for Number {
    fn eq(&self, other: &u64) -> (r: bool) {
        match self.0 {
            Num::Uint64(n) => n == *other,
            _ => false,
        }
    }
}

impl vstd::std_specs::cmp::PartialEqSpecImpl<u64> for Number {
    open spec fn obeys_eq_spec() -> bool {
        true
    }

    open spec fn eq_spec(&self, other: &u64) -> bool {
        self.0 == Num::Uint64(*other)
    }
}

impl From<i8> for Num {
    fn from(v: i8) -> (r: Num)
        ensures
            r == Num::Int8(v),
    {
        Num::Int8(v)
    }
}

impl vstd::std_specs::convert::FromSpecImpl<i8> for Num {
    open spec fn obeys_from_spec() -> bool {
        true
    }

    open spec fn from_spec(v: i8) -> Num {
        Num::Int8(v)
    }
}

impl From<i8> for Number {
    fn from(v: i8) -> (r: Number)
        ensures
            r == Number(Num::Int8(v)),
    {
        Number(Num::Int8(v))
    }
}

impl vstd::std_specs::convert::FromSpecImpl<i8> for Number {
    open spec fn obeys_from_spec() -> bool {
        true
    }

    open spec fn from_spec(v: i8) -> Number {
        Number(Num::Int8(v))
    }
}

impl PartialEq<i8> for Number {
    fn eq(&self, other: &i8) -> (r: bool) {
        match self.0 {
            Num::Int8(n) => n == *other,
            _ => false,
        }
    }
}

impl vstd::std_specs::cmp::PartialEqSpecImpl<i8> for Number {
    open spec fn obeys_eq_spec() -> bool {
        true
    }

    open spec fn eq_spec(&self, other: &i8) -> bool {
        self.0 == Num::Int8(*other)
    }
}

impl From<i16> for Num {
    fn from(v: i16) -> (r: Num)
        ensures
            r == Num::Int16(v),
    {
        Num::Int16(v)
    }
}

impl vstd::std_specs::convert::FromSpecImpl<i16> for Num {
    open spec fn obeys_from_spec() -> bool {
        true
    }

    open spec fn from_spec(v: i16) -> Num {
        Num::Int16(v)
    }
}

impl From<i16> for Number {
    fn from(v: i16) -> (r: Number)
        ensures
            r == Number(Num::Int16(v)),
    {
        Number(Num::Int16(v))
    }
}

impl vstd::std_specs::convert::FromSpecImpl<i16> for Number {
    open spec fn obeys_from_spec() -> bool {
        true
    }

    open spec fn from_spec(v: i16) -> Number {
        Number(Num::Int16(v))
    }
}

impl PartialEq<i16> for Number {
    fn eq(&self, other: &i16) -> (r: bool) {
        match self.0 {
            Num::Int16(n) => n == *other,
            _ => false,
        }
    }
}

impl vstd::std_specs::cmp::PartialEqSpecImpl<i16> for Number {
    open spec fn obeys_eq_spec() -> bool {
        true
    }

    open spec fn eq_spec(&self, other: &i16) -> bool {
        self.0 == Num::Int16(*other)
    }
}

impl From<i32> for Num {
    fn from(v: i32) -> (r: Num)
        ensures
            r == Num::Int32(v),
    {
        Num::Int32(v)
    }
}

impl vstd::std_specs::convert::FromSpecImpl<i32> for Num {
    open spec fn obeys_from_spec() -> bool {
        true
    }

    open spec fn from_spec(v: i32) -> Num {
        Num::Int32(v)
    }
}

impl From<i32> for Number {
    fn from(v: i32) -> (r: Number)
        ensures
            r == Number(Num::Int32(v)),
    {
        Number(Num::Int32(v))
    }
}

impl vstd::std_specs::convert::FromSpecImpl<i32> for Number {
    open spec fn obeys_from_spec() -> bool {
        true
    }

    open spec fn from_spec(v: i32) -> Number {
        Number(Num::Int32(v))
    }
}

impl PartialEq<i32> for Number {
    fn eq(&self, other: &i32) -> (r: bool) {
        match self.0 {
            Num::Int32(n) => n == *other,
            _ => false,
        }
    }
}

impl vstd::std_specs::cmp::PartialEqSpecImpl<i32> for Number {
    open spec fn obeys_eq_spec() -> bool {
        true
    }

    open spec fn eq_spec(&self, other: &i32) -> bool {
        self.0 == Num::Int32(*other)
    }
}

impl From<i64> for Num {
    fn from(v: i64) -> (r: Num)
        ensures
            r == Num::Int64(v),
    {
        Num::Int64(v)
    }
}

impl vstd::std_specs::convert::FromSpecImpl<i64> for Num {
    open spec fn obeys_from_spec() -> bool {
        true
    }

    open spec fn from_spec(v: i64) -> Num {
        Num::Int64(v)
    }
}

impl From<i64> for Number {
    fn from(v: i64) -> (r: Number)
        ensures
            r == Number(Num::Int64(v)),
    {
        Number(Num::Int64(v))
    }
}

impl vstd::std_specs::convert::FromSpecImpl<i64> for Number {
    open spec fn obeys_from_spec() -> bool {
        true
    }

    open spec fn from_spec(v: i64) -> Number {
        Number(Num::Int64(v))
    }
}

impl PartialEq<i64> for Number {
    fn eq(&self, other: &i64) -> (r: bool) {
        match self.0 {
            Num::Int64(n) => n == *other,
            _ => false,
        }
    }
}

impl vstd::std_specs::cmp::PartialEqSpecImpl<i64> for Number {
    open spec fn obeys_eq_spec() -> bool {
        true
    }

    open spec fn eq_spec(&self, other: &i64) -> bool {
        self.0 == Num::Int64(*other)
    }
}


/// A number of one of the fixed numeric types.
#[derive(Debug, Clone, Copy, PartialEq, Eq, Structural)]
pub struct Number(pub Num);

impl TypeOf for Number {
    open spec fn spec_type_of(&self) -> DataType {
        self.0.dtype()
    }

    fn type_of(&self) -> (r: DataType) {
        self.0.type_of()
    }
}

impl Number {
    /// What a cast of this number into the integer type `t` returns: the same integer when
    /// `t` holds it, a `CastError` when it does not, and `IllegalConversion` from a
    /// non-integer payload.
    pub open spec fn int_cast_result(self, t: DataType, r: Result<Number, Error>) -> bool {
        match self.0.int_value() {
            None => r == Err::<Number, Error>(Error::IllegalConversion),
            Some(v) => if in_range(v, t) {
                r == Ok::<Number, Error>(Number(Num::from_int(v, t)))
            } else {
                r matches Err(Error::CastError { .. })
            },
        }
    }

    fn cast_int(self, t: DataType) -> (r: Result<Number, Error>)
        requires
            t.is_integer(),
        ensures
            self.int_cast_result(t, r),
    {
        match self.0.to_i128() {
            None => Err(Error::IllegalConversion),
            Some(v) => {
                if in_range_exec(v, t) {
                    Ok(Number(Num::make(v, t)))
                } else {
                    Err(
                        Error::CastError {
                            description: String::from_str(
                                "out of range integral type conversion attempted",
                            ),
                        },
                    )
                }
            },
        }
    }

    pub fn into_uint8(self) -> (r: Result<Number, Error>)
        ensures
            self.int_cast_result(DataType::Uint8, r),
    {
        self.cast_int(DataType::Uint8)
    }

    pub fn into_uint16(self) -> (r: Result<Number, Error>)
        ensures
            self.int_cast_result(DataType::Uint16, r),
    {
        self.cast_int(DataType::Uint16)
    }

    pub fn into_uint32(self) -> (r: Result<Number, Error>)
        ensures
            self.int_cast_result(DataType::Uint32, r),
    {
        self.cast_int(DataType::Uint32)
    }

    pub fn into_uint64(self) -> (r: Result<Number, Error>)
        ensures
            self.int_cast_result(DataType::Uint64, r),
    {
        self.cast_int(DataType::Uint64)
    }

    pub fn into_int8(self) -> (r: Result<Number, Error>)
        ensures
            self.int_cast_result(DataType::Int8, r),
    {
        self.cast_int(DataType::Int8)
    }

    pub fn into_int16(self) -> (r: Result<Number, Error>)
        ensures
            self.int_cast_result(DataType::Int16, r),
    {
        self.cast_int(DataType::Int16)
    }

    pub fn into_int32(self) -> (r: Result<Number, Error>)
        ensures
            self.int_cast_result(DataType::Int32, r),
    {
        self.cast_int(DataType::Int32)
    }

    pub fn into_int64(self) -> (r: Result<Number, Error>)
        ensures
            self.int_cast_result(DataType::Int64, r),
    {
        self.cast_int(DataType::Int64)
    }

    pub fn is_u8(&self) -> (r: bool)
        ensures
            r == (self.0 is Uint8),
    {
        match self.0 {
            Num::Uint8(_) => true,
            _ => false,
        }
    }

    /// Is an alias for self.is_u8()
    pub fn is_uint8(&self) -> (r: bool)
        ensures
            r == (self.0 is Uint8),
    {
        self.is_u8()
    }

    pub fn is_u16(&self) -> (r: bool)
        ensures
            r == (self.0 is Uint16),
    {
        match self.0 {
            Num::Uint16(_) => true,
            _ => false,
        }
    }

    /// Is an alias for self.is_u16()
    pub fn is_uint16(&self) -> (r: bool)
        ensures
            r == (self.0 is Uint16),
    {
        self.is_u16()
    }

    pub fn is_u32(&self) -> (r: bool)
        ensures
            r == (self.0 is Uint32),
    {
        match self.0 {
            Num::Uint32(_) => true,
            _ => false,
        }
    }

    /// Is an alias for self.is_u32()
    pub fn is_uint32(&self) -> (r: bool)
        ensures
            r == (self.0 is Uint32),
    {
        self.is_u32()
    }

    pub fn is_u64(&self) -> (r: bool)
        ensures
            r == (self.0 is Uint64),
    {
        match self.0 {
            Num::Uint64(_) => true,
            _ => false,
        }
    }

    /// Is an alias for self.is_u64()
    pub fn is_uint64(&self) -> (r: bool)
        ensures
            r == (self.0 is Uint64),
    {
        self.is_u64()
    }

    pub fn is_i8(&self) -> (r: bool)
        ensures
            r == (self.0 is Int8),
    {
        match self.0 {
            Num::Int8(_) => true,
            _ => false,
        }
    }

    /// Is an alias for self.is_i8()
    pub fn is_int8(&self) -> (r: bool)
        ensures
            r == (self.0 is Int8),
    {
        self.is_i8()
    }

    pub fn is_i16(&self) -> (r: bool)
        ensures
            r == (self.0 is Int16),
    {
        match self.0 {
            Num::Int16(_) => true,
            _ => false,
        }
    }

    /// Is an alias for self.is_i16()
    pub fn is_int16(&self) -> (r: bool)
        ensures
            r == (self.0 is Int16),
    {
        self.is_i16()
    }

    pub fn is_i32(&self) -> (r: bool)
        ensures
            r == (self.0 is Int32),
    {
        match self.0 {
            Num::Int32(_) => true,
            _ => false,
        }
    }

    /// Is an alias for self.is_i32()
    pub fn is_int32(&self) -> (r: bool)
        ensures
            r == (self.0 is Int32),
    {
        self.is_i32()
    }

    pub fn is_i64(&self) -> (r: bool)
        ensures
            r == (self.0 is Int64),
    {
        match self.0 {
            Num::Int64(_) => true,
            _ => false,
        }
    }

    /// Is an alias for self.is_i64()
    pub fn is_int64(&self) -> (r: bool)
        ensures
            r == (self.0 is Int64),
    {
        self.is_i64()
    }

    pub fn is_f32(&self) -> (r: bool)
        ensures
            r == (self.0 is Float),
    {
        match self.0 {
            Num::Float(_) => true,
            _ => false,
        }
    }

    /// Is an alias for self.is_f32()
    pub fn is_float(&self) -> (r: bool)
        ensures
            r == (self.0 is Float),
    {
        self.is_f32()
    }

    pub fn is_f64(&self) -> (r: bool)
        ensures
            r == (self.0 is Double),
    {
        match self.0 {
            Num::Double(_) => true,
            _ => false,
        }
    }

    /// Is an alias for self.is_f64()
    pub fn is_double(&self) -> (r: bool)
        ensures
            r == (self.0 is Double),
    {
        self.is_f64()
    }

    /// The number as a `u8`: integers converted as `as` converts them, a decimal as 0.
    pub open spec fn spec_as_u8(self) -> u8 {
        match self.0 {
            Num::Uint8(x) => x as u8,
            Num::Uint16(x) => x as u8,
            Num::Uint32(x) => x as u8,
            Num::Uint64(x) => x as u8,
            Num::Int8(x) => x as u8,
            Num::Int16(x) => x as u8,
            Num::Int32(x) => x as u8,
            Num::Int64(x) => x as u8,
            _ => 0,
        }
    }

    /// The number as a `u8`: integers converted as `as` converts them, a decimal as 0;
    /// floating-point payloads are read outside this library.
    pub fn as_u8(&self) -> (r: u8)
        requires
            !self.0.is_float_kind(),
        ensures
            r == self.spec_as_u8(),
    {
        match self.0 {
            Num::Uint8(x) => x as u8,
            Num::Uint16(x) => x as u8,
            Num::Uint32(x) => x as u8,
            Num::Uint64(x) => x as u8,
            Num::Int8(x) => x as u8,
            Num::Int16(x) => x as u8,
            Num::Int32(x) => x as u8,
            Num::Int64(x) => x as u8,
            _ => 0,
        }
    }

    /// The number as a `u16`: integers converted as `as` converts them, a decimal as 0.
    pub open spec fn spec_as_u16(self) -> u16 {
        match self.0 {
            Num::Uint8(x) => x as u16,
            Num::Uint16(x) => x as u16,
            Num::Uint32(x) => x as u16,
            Num::Uint64(x) => x as u16,
            Num::Int8(x) => x as u16,
            Num::Int16(x) => x as u16,
            Num::Int32(x) => x as u16,
            Num::Int64(x) => x as u16,
            _ => 0,
        }
    }

    /// The number as a `u16`: integers converted as `as` converts them, a decimal as 0;
    /// floating-point payloads are read outside this library.
    pub fn as_u16(&self) -> (r: u16)
        requires
            !self.0.is_float_kind(),
        ensures
            r == self.spec_as_u16(),
    {
        match self.0 {
            Num::Uint8(x) => x as u16,
            Num::Uint16(x) => x as u16,
            Num::Uint32(x) => x as u16,
            Num::Uint64(x) => x as u16,
            Num::Int8(x) => x as u16,
            Num::Int16(x) => x as u16,
            Num::Int32(x) => x as u16,
            Num::Int64(x) => x as u16,
            _ => 0,
        }
    }

    /// The number as a `u32`: integers converted as `as` converts them, a decimal as 0.
    pub open spec fn spec_as_u32(self) -> u32 {
        match self.0 {
            Num::Uint8(x) => x as u32,
            Num::Uint16(x) => x as u32,
            Num::Uint32(x) => x as u32,
            Num::Uint64(x) => x as u32,
            Num::Int8(x) => x as u32,
            Num::Int16(x) => x as u32,
            Num::Int32(x) => x as u32,
            Num::Int64(x) => x as u32,
            _ => 0,
        }
    }

    /// The number as a `u32`: integers converted as `as` converts them, a decimal as 0;
    /// floating-point payloads are read outside this library.
    pub fn as_u32(&self) -> (r: u32)
        requires
            !self.0.is_float_kind(),
        ensures
            r == self.spec_as_u32(),
    {
        match self.0 {
            Num::Uint8(x) => x as u32,
            Num::Uint16(x) => x as u32,
            Num::Uint32(x) => x as u32,
            Num::Uint64(x) => x as u32,
            Num::Int8(x) => x as u32,
            Num::Int16(x) => x as u32,
            Num::Int32(x) => x as u32,
            Num::Int64(x) => x as u32,
            _ => 0,
        }
    }

    /// The number as a `u64`: integers converted as `as` converts them, a decimal as 0.
    pub open spec fn spec_as_u64(self) -> u64 {
        match self.0 {
            Num::Uint8(x) => x as u64,
            Num::Uint16(x) => x as u64,
            Num::Uint32(x) => x as u64,
            Num::Uint64(x) => x as u64,
            Num::Int8(x) => x as u64,
            Num::Int16(x) => x as u64,
            Num::Int32(x) => x as u64,
            Num::Int64(x) => x as u64,
            _ => 0,
        }
    }

    /// The number as a `u64`: integers converted as `as` converts them, a decimal as 0;
    /// floating-point payloads are read outside this library.
    pub fn as_u64(&self) -> (r: u64)
        requires
            !self.0.is_float_kind(),
        ensures
            r == self.spec_as_u64(),
    {
        match self.0 {
            Num::Uint8(x) => x as u64,
            Num::Uint16(x) => x as u64,
            Num::Uint32(x) => x as u64,
            Num::Uint64(x) => x as u64,
            Num::Int8(x) => x as u64,
            Num::Int16(x) => x as u64,
            Num::Int32(x) => x as u64,
            Num::Int64(x) => x as u64,
            _ => 0,
        }
    }

    /// The number as a `i8`: integers converted as `as` converts them, a decimal as 0.
    pub open spec fn spec_as_i8(self) -> i8 {
        match self.0 {
            Num::Uint8(x) => x as i8,
            Num::Uint16(x) => x as i8,
            Num::Uint32(x) => x as i8,
            Num::Uint64(x) => x as i8,
            Num::Int8(x) => x as i8,
            Num::Int16(x) => x as i8,
            Num::Int32(x) => x as i8,
            Num::Int64(x) => x as i8,
            _ => 0,
        }
    }

    /// The number as a `i8`: integers converted as `as` converts them, a decimal as 0;
    /// floating-point payloads are read outside this library.
    pub fn as_i8(&self) -> (r: i8)
        requires
            !self.0.is_float_kind(),
        ensures
            r == self.spec_as_i8(),
    {
        match self.0 {
            Num::Uint8(x) => x as i8,
            Num::Uint16(x) => x as i8,
            Num::Uint32(x) => x as i8,
            Num::Uint64(x) => x as i8,
            Num::Int8(x) => x as i8,
            Num::Int16(x) => x as i8,
            Num::Int32(x) => x as i8,
            Num::Int64(x) => x as i8,
            _ => 0,
        }
    }

    /// The number as a `i16`: integers converted as `as` converts them, a decimal as 0.
    pub open spec fn spec_as_i16(self) -> i16 {
        match self.0 {
            Num::Uint8(x) => x as i16,
            Num::Uint16(x) => x as i16,
            Num::Uint32(x) => x as i16,
            Num::Uint64(x) => x as i16,
            Num::Int8(x) => x as i16,
            Num::Int16(x) => x as i16,
            Num::Int32(x) => x as i16,
            Num::Int64(x) => x as i16,
            _ => 0,
        }
    }

    /// The number as a `i16`: integers converted as `as` converts them, a decimal as 0;
    /// floating-point payloads are read outside this library.
    pub fn as_i16(&self) -> (r: i16)
        requires
            !self.0.is_float_kind(),
        ensures
            r == self.spec_as_i16(),
    {
        match self.0 {
            Num::Uint8(x) => x as i16,
            Num::Uint16(x) => x as i16,
            Num::Uint32(x) => x as i16,
            Num::Uint64(x) => x as i16,
            Num::Int8(x) => x as i16,
            Num::Int16(x) => x as i16,
            Num::Int32(x) => x as i16,
            Num::Int64(x) => x as i16,
            _ => 0,
        }
    }

    /// The number as a `i32`: integers converted as `as` converts them, a decimal as 0.
    pub open spec fn spec_as_i32(self) -> i32 {
        match self.0 {
            Num::Uint8(x) => x as i32,
            Num::Uint16(x) => x as i32,
            Num::Uint32(x) => x as i32,
            Num::Uint64(x) => x as i32,
            Num::Int8(x) => x as i32,
            Num::Int16(x) => x as i32,
            Num::Int32(x) => x as i32,
            Num::Int64(x) => x as i32,
            _ => 0,
        }
    }

    /// The number as a `i32`: integers converted as `as` converts them, a decimal as 0;
    /// floating-point payloads are read outside this library.
    pub fn as_i32(&self) -> (r: i32)
        requires
            !self.0.is_float_kind(),
        ensures
            r == self.spec_as_i32(),
    {
        match self.0 {
            Num::Uint8(x) => x as i32,
            Num::Uint16(x) => x as i32,
            Num::Uint32(x) => x as i32,
            Num::Uint64(x) => x as i32,
            Num::Int8(x) => x as i32,
            Num::Int16(x) => x as i32,
            Num::Int32(x) => x as i32,
            Num::Int64(x) => x as i32,
            _ => 0,
        }
    }

    /// The number as a `i64`: integers converted as `as` converts them, a decimal as 0.
    pub open spec fn spec_as_i64(self) -> i64 {
        match self.0 {
            Num::Uint8(x) => x as i64,
            Num::Uint16(x) => x as i64,
            Num::Uint32(x) => x as i64,
            Num::Uint64(x) => x as i64,
            Num::Int8(x) => x as i64,
            Num::Int16(x) => x as i64,
            Num::Int32(x) => x as i64,
            Num::Int64(x) => x as i64,
            _ => 0,
        }
    }

    /// The number as a `i64`: integers converted as `as` converts them, a decimal as 0;
    /// floating-point payloads are read outside this library.
    pub fn as_i64(&self) -> (r: i64)
        requires
            !self.0.is_float_kind(),
        ensures
            r == self.spec_as_i64(),
    {
        match self.0 {
            Num::Uint8(x) => x as i64,
            Num::Uint16(x) => x as i64,
            Num::Uint32(x) => x as i64,
            Num::Uint64(x) => x as i64,
            Num::Int8(x) => x as i64,
            Num::Int16(x) => x as i64,
            Num::Int32(x) => x as i64,
            Num::Int64(x) => x as i64,
            _ => 0,
        }
    }

    pub fn is_decimal(&self) -> (r: bool)
        ensures
            r == (self.0 is Decimal),
    {
        match self.0 {
            Num::Decimal(_) => true,
            _ => false,
        }
    }

    /// Converting into a 32-bit float: a float stays as it is and an integer of at most 16
    /// bits becomes the float equal to it; a decimal would need floating-point rounding,
    /// which this library does not perform; wider integers and doubles cannot be converted.
    pub fn into_float(self) -> (r: Result<Number, Error>)
        ensures
            self.0 is Float ==> r == Ok::<Number, Error>(self),
            (self.0 is Uint8 || self.0 is Uint16 || self.0 is Int8 || self.0 is Int16) ==> (r matches Ok(
                n,
            ) && n.0 matches Num::Float(b) && is_f32_of(b, self.0.int_value().unwrap())),
            self.0 is Decimal ==> r matches Err(Error::CastError { .. }),
            (self.0 is Uint32 || self.0 is Uint64 || self.0 is Int32 || self.0 is Int64
                || self.0 is Double) ==> r == Err::<Number, Error>(Error::IllegalConversion),
    {
        match self.0 {
            Num::Float(_) => Ok(self),
            Num::Uint8(x) => Ok(Number(Num::Float(float32_of(x as i64)))),
            Num::Uint16(x) => Ok(Number(Num::Float(float32_of(x as i64)))),
            Num::Int8(x) => Ok(Number(Num::Float(float32_of(x as i64)))),
            Num::Int16(x) => Ok(Number(Num::Float(float32_of(x as i64)))),
            Num::Decimal(_) => Err(float_unavailable()),
            _ => Err(Error::IllegalConversion),
        }
    }

    /// Converting into a 64-bit float: a double stays as it is and an integer of at most
    /// 32 bits becomes the double equal to it; floats and decimals would need floating-point
    /// conversion, which this library does not perform; 64-bit integers cannot be converted.
    pub fn into_double(self) -> (r: Result<Number, Error>)
        ensures
            self.0 is Double ==> r == Ok::<Number, Error>(self),
            (self.0 is Uint8 || self.0 is Uint16 || self.0 is Uint32 || self.0 is Int8
                || self.0 is Int16 || self.0 is Int32) ==> (r matches Ok(n) && n.0 matches Num::Double(b)
                && is_f64_of(b, self.0.int_value().unwrap())),
            (self.0 is Float || self.0 is Decimal) ==> r matches Err(Error::CastError { .. }),
            (self.0 is Uint64 || self.0 is Int64) ==> r == Err::<Number, Error>(
                Error::IllegalConversion,
            ),
    {
        match self.0 {
            Num::Double(_) => Ok(self),
            Num::Uint8(x) => Ok(Number(Num::Double(float64_of(x as i64)))),
            Num::Uint16(x) => Ok(Number(Num::Double(float64_of(x as i64)))),
            Num::Uint32(x) => Ok(Number(Num::Double(float64_of(x as i64)))),
            Num::Int8(x) => Ok(Number(Num::Double(float64_of(x as i64)))),
            Num::Int16(x) => Ok(Number(Num::Double(float64_of(x as i64)))),
            Num::Int32(x) => Ok(Number(Num::Double(float64_of(x as i64)))),
            Num::Uint64(_) | Num::Int64(_) => Err(Error::IllegalConversion),
            _ => Err(float_unavailable()),
        }
    }

    /// Converting into a decimal: an integer becomes the decimal with the same value and
    /// scale 0, a decimal stays as it is; a float payload needs floating-point arithmetic.
    pub fn into_decimal(self) -> (r: Result<Number, Error>)
        ensures
            self.0.int_value() matches Some(v) ==> (r matches Ok(n) && n.0 matches Num::Decimal(d)
                && d.spec_mantissa() == v && d.spec_scale() == 0),
            self.0 is Decimal ==> r == Ok::<Number, Error>(self),
            self.0.is_float_kind() ==> r matches Err(Error::CastError { .. }),
    {
        match self.0 {
            Num::Decimal(_) => Ok(self),
            Num::Float(_) | Num::Double(_) => Err(float_unavailable()),
            _ => {
                let v = self.0.to_i128().unwrap();
                Ok(Number(Num::Decimal(Decimal::from_int(v))))
            },
        }
    }

    /// Sum of two integers of one type, when that type holds it.
    pub fn checked_add(self, lhs: Number) -> (r: Result<Number, Error>)
        ensures
            match (self.0.int_value(), lhs.0.int_value()) {
                (Some(a), Some(b)) => if self.0.dtype() != lhs.0.dtype() {
                    r == Err::<Number, Error>(Error::IllegalOperation)
                } else if in_range(a + b, self.0.dtype()) {
                    r == Ok::<Number, Error>(Number(Num::from_int(a + b, self.0.dtype())))
                } else {
                    r == Err::<Number, Error>(Error::OpFailed)
                },
                _ => r == Err::<Number, Error>(Error::IllegalOperation),
            },
    {
        match (self.0.to_i128(), lhs.0.to_i128()) {
            (Some(a), Some(b)) => {
                let t = self.0.type_of();
                if t != lhs.0.type_of() {
                    return Err(Error::IllegalOperation);
                }
                let s = a + b;
                if in_range_exec(s, t) {
                    Ok(Number(Num::make(s, t)))
                } else {
                    Err(Error::OpFailed)
                }
            },
            _ => Err(Error::IllegalOperation),
        }
    }

    pub fn to_string(&self) -> (r: String)
        requires
            !self.0.is_float_kind(),
        ensures
            r@ == self.0.text(),
    {
        self.0.to_string()
    }

    pub fn inner(&self) -> (r: &Num)
        ensures
            *r == self.0,
    {
        &self.0
    }

    /// Read a number of type `dtype` from a text: integers as an optional sign and decimal
    /// digits, decimals as rust_decimal reads them.
    pub fn from_str(s: &str, dtype: &DataType) -> (r: Result<Number, Error>)
        ensures
            dtype.is_integer() ==> match parse_int_text(s@, is_signed(*dtype)) {
                Some(v) => if in_range(v, *dtype) {
                    r == Ok::<Number, Error>(Number(Num::from_int(v, *dtype)))
                } else {
                    r matches Err(Error::ParseIntError { from_str }) && from_str@ == s@
                },
                None => r matches Err(Error::ParseIntError { from_str }) && from_str@ == s@,
            },
            *dtype == DataType::Decimal ==> match decimal_parse(s@) {
                Some(p) => r matches Ok(n) && n.0 matches Num::Decimal(d) && d.spec_mantissa()
                    == p.0 && d.spec_scale() == p.1,
                None => r matches Err(Error::ParseDecimalError { from_str, .. }) && from_str@
                    == s@,
            },
            (*dtype == DataType::Float || *dtype == DataType::Double) ==> (r matches Err(
                Error::ParseFloatError { from_str },
            ) && from_str@ == s@),
            !dtype.spec_is_numeric() ==> r == Err::<Number, Error>(
                Error::InvalidDataType { datatype: *dtype },
            ),
    {
        let t = *dtype;
        if t.is_numeric() {
            match t {
                DataType::Decimal => match Decimal::from_str(s) {
                    Some(d) => Ok(Number(Num::Decimal(d))),
                    None => Err(
                        Error::ParseDecimalError {
                            from_str: String::from_str(s),
                            description: String::from_str("invalid decimal text"),
                        },
                    ),
                },
                DataType::Float | DataType::Double => Err(
                    Error::ParseFloatError { from_str: String::from_str(s) },
                ),
                _ => {
                    let signed = t == DataType::Int8 || t == DataType::Int16 || t == DataType::Int32
                        || t == DataType::Int64;
                    match parse_integer(s, signed) {
                        Some(v) => {
                            if in_range_exec(v, t) {
                                Ok(Number(Num::make(v, t)))
                            } else {
                                Err(Error::ParseIntError { from_str: String::from_str(s) })
                            }
                        },
                        None => Err(Error::ParseIntError { from_str: String::from_str(s) }),
                    }
                },
            }
        } else {
            Err(Error::InvalidDataType { datatype: t })
        }
    }
}

/// `bits` is the IEEE-754 binary encoding of the integer `v` in a format with `mant` fraction
/// bits, exponent bias `bias` and the sign at bit `sign`: binary32 is `(23, 127, 31)`,
/// binary64 is `(52, 1023, 63)`. The integer must be exactly representable.
pub open spec fn encodes_int(bits: int, v: int, mant: nat, bias: int, sign: nat) -> bool {
    if v == 0 {
        bits == 0
    } else {
        let m = if v < 0 {
            -v
        } else {
            v
        };
        exists|k: nat|
            k <= mant && #[trigger] pow2(k) <= m < pow2(k + 1) && bits == (if v < 0 {
                pow2(sign) as int
            } else {
                0
            }) + (bias + k) * pow2(mant) + (m - pow2(k)) * pow2((mant - k) as nat)
    }
}

/// The binary32 encoding of a 16-bit integer.
pub open spec fn is_f32_of(bits: u32, v: int) -> bool {
    encodes_int(bits as int, v, 23, 127, 31)
}

/// The binary64 encoding of a 32-bit integer.
pub open spec fn is_f64_of(bits: u64, v: int) -> bool {
    encodes_int(bits as int, v, 52, 1023, 63)
}

/// The encoding of an integer in a binary floating-point format that holds it exactly.
fn int_float_bits(v: i64, mant: u32, bias: u128, top: u128, sign_bit: u128, sign: u32) -> (r: u128)
    requires
        mant <= 52,
        bias <= 1023,
        sign <= 63,
        top == pow2(mant as nat),
        sign_bit == pow2(sign as nat),
        -2 * top < v < 2 * top,
    ensures
        encodes_int(r as int, v as int, mant as nat, bias as int, sign as nat),
        r < sign_bit + (bias + mant + 1) * top,
{
    let neg = v < 0;
    let m: u128 = if neg {
        (-(v as i128)) as u128
    } else {
        v as u128
    };
    proof {
        lemma_pow2_pos(mant as nat);
        assert((bias + mant + 1) * top >= 1) by (nonlinear_arith)
            requires
                top >= 1,
        ;
    }
    if m == 0 {
        return 0;
    }
    proof {
        lemma2_to64();
        assert(top <= 0x10_0000_0000_0000) by {
            if mant < 52 {
                lemma_pow2_strictly_increases(mant as nat, 52);
            }
            lemma2_to64_rest();
        }
    }
    let mut p: u128 = 1;
    let mut q: u128 = top;
    let mut k: u32 = 0;
    proof {
        assert(pow2(0) == 1) by {
            lemma2_to64();
        }
        assert((mant - 0) as nat == mant as nat);
    }
    while p * 2 <= m
        invariant
            1 <= m < 2 * top,
            top <= 0x10_0000_0000_0000,
            top == pow2(mant as nat),
            k <= mant,
            p == pow2(k as nat),
            q == pow2((mant - k) as nat),
            p <= m,
            p * q == top,
        decreases mant - k,
    {
        proof {
            if k >= mant {
                if k > mant {
                    lemma_pow2_strictly_increases(mant as nat, k as nat);
                }
                assert(false);
            }
            lemma_pow2_unfold((mant - k) as nat);
            lemma_pow2_unfold((k + 1) as nat);
            assert(((mant - k) - 1) as nat == (mant - (k + 1)) as nat);
            assert(p * 2 * (q / 2) == top) by (nonlinear_arith)
                requires
                    p * q == top,
                    q == 2 * (q / 2),
            ;
        }
        p = p * 2;
        q = q / 2;
        k = k + 1;
    }
    proof {
        lemma_pow2_unfold((k + 1) as nat);
        lemma_pow2_pos((mant - k) as nat);
        assert((m - p) * q < p * q) by (nonlinear_arith)
            requires
                m < 2 * p,
                p <= m,
                q > 0,
        ;
        lemma_pow2_pos((mant - k) as nat);
        assert((bias + k) * top <= (bias + mant) * top) by (nonlinear_arith)
            requires
                k <= mant,
        ;
        assert((bias + mant) * top <= 1075 * 0x10_0000_0000_0000) by (nonlinear_arith)
            requires
                bias + mant <= 1075,
                top <= 0x10_0000_0000_0000,
        ;
    }
    let f = (m - p) * q;
    let e = (bias + k as u128) * top;
    let s: u128 = if neg {
        sign_bit
    } else {
        0
    };
    proof {
        assert(pow2(sign as nat) <= 0x8000_0000_0000_0000) by {
            if sign < 63 {
                lemma_pow2_strictly_increases(sign as nat, 63);
            }
            lemma2_to64_rest();
        }
        assert((bias + mant) * top <= 1075 * 0x10_0000_0000_0000) by (nonlinear_arith)
            requires
                bias + mant <= 1075,
                top <= 0x10_0000_0000_0000,
        ;
        assert((bias + mant + 1) * top == (bias + mant) * top + top) by (nonlinear_arith);
        let kk = k as nat;
        assert(kk <= mant && pow2(kk) <= m && m < pow2(kk + 1));
        assert(m as int == (if v < 0 { -(v as int) } else { v as int }));
    }
    s + e + f
}

/// The binary32 encoding of an integer of at most 16 bits.
fn float32_of(v: i64) -> (r: u32)
    requires
        -65536 < v < 65536,
    ensures
        is_f32_of(r, v as int),
{
    proof {
        lemma2_to64();
    }
    let b = int_float_bits(v, 23, 127, 0x80_0000, 0x8000_0000, 31);
    b as u32
}

/// The binary64 encoding of an integer of at most 32 bits.
fn float64_of(v: i64) -> (r: u64)
    requires
        -0x1_0000_0000 <= v <= 0x1_0000_0000,
    ensures
        is_f64_of(r, v as int),
{
    proof {
        lemma2_to64();
        lemma2_to64_rest();
    }
    let b = int_float_bits(v, 52, 1023, 0x10_0000_0000_0000, 0x8000_0000_0000_0000, 63);
    b as u64
}

/// What `Number::from` builds from a value of each integer width reads back, through the
/// accessor of that width, as the same value.
pub proof fn law_number_round_trip(a: u8, b: u16, c: u32, d: u64, e: i8, f: i16, g: i32, h: i64)
    ensures
        Number(Num::Uint8(a)).spec_as_u8() == a,
        Number(Num::Uint16(b)).spec_as_u16() == b,
        Number(Num::Uint32(c)).spec_as_u32() == c,
        Number(Num::Uint64(d)).spec_as_u64() == d,
        Number(Num::Int8(e)).spec_as_i8() == e,
        Number(Num::Int16(f)).spec_as_i16() == f,
        Number(Num::Int32(g)).spec_as_i32() == g,
        Number(Num::Int64(h)).spec_as_i64() == h,
{
}

fn float_unavailable() -> (r: Error)
    ensures
        r matches Error::CastError { .. },
{
    Error::CastError {
        description: String::from_str("floating-point conversion is not available"),
    }
}

/// Whether `v` is a value of the integer type `t`.
pub fn in_range_exec(v: i128, t: DataType) -> (r: bool)
    ensures
        r == in_range(v as int, t),
{
    match t {
        DataType::Uint8 => 0 <= v && v <= 255,
        DataType::Uint16 => 0 <= v && v <= 65535,
        DataType::Uint32 => 0 <= v && v <= 4294967295,
        DataType::Uint64 => 0 <= v && v <= 18446744073709551615,
        DataType::Int8 => -128 <= v && v <= 127,
        DataType::Int16 => -32768 <= v && v <= 32767,
        DataType::Int32 => -2147483648 <= v && v <= 2147483647,
        DataType::Int64 => -9223372036854775808 <= v && v <= 9223372036854775807,
        _ => false,
    }
}

} // verus!
