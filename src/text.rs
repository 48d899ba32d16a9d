use vstd::prelude::*;
use vstd::string::StrSliceExecFns;
use vstd::string::StringExecFns;

verus! {

/// The character of a decimal digit.
pub open spec fn digit_char(d: int) -> char {
    if d == 0 {
        '0'
    } else if d == 1 {
        '1'
    } else if d == 2 {
        '2'
    } else if d == 3 {
        '3'
    } else if d == 4 {
        '4'
    } else if d == 5 {
        '5'
    } else if d == 6 {
        '6'
    } else if d == 7 {
        '7'
    } else if d == 8 {
        '8'
    } else {
        '9'
    }
}

pub open spec fn is_digit(c: char) -> bool {
    '0' <= c && c <= '9'
}

pub open spec fn digit_value(c: char) -> int {
    c as int - '0' as int
}

/// Decimal text of a natural number, most significant digit first, no leading zeros.
pub open spec fn nat_text(n: nat) -> Seq<char>
    decreases n,
{
    if n < 10 {
        seq![digit_char(n as int)]
    } else {
        nat_text(n / 10).push(digit_char((n % 10) as int))
    }
}

/// Decimal text of an integer: a `-` before the digits of a negative one.
pub open spec fn int_text(i: int) -> Seq<char> {
    if i < 0 {
        seq!['-'] + nat_text((-i) as nat)
    } else {
        nat_text(i as nat)
    }
}

pub open spec fn all_digits(s: Seq<char>) -> bool {
    forall|i: int| 0 <= i < s.len() ==> is_digit(#[trigger] s[i])
}

/// Value of a run of decimal digits.
pub open spec fn digits_value(s: Seq<char>) -> int
    decreases s.len(),
{
    if s.len() == 0 {
        0
    } else {
        digits_value(s.drop_last()) * 10 + digit_value(s.last())
    }
}

/// The integer that a text denotes: an optional `+` (or, when `signed`, `-`) and one or
/// more ASCII digits, nothing else.
pub open spec fn parse_int_text(s: Seq<char>, signed: bool) -> Option<int> {
    let neg = signed && s.len() > 0 && s[0] == '-';
    let rest = if s.len() > 0 && (s[0] == '+' || neg) {
        s.drop_first()
    } else {
        s
    };
    if rest.len() == 0 || !all_digits(rest) {
        None
    } else if neg {
        Some(-digits_value(rest))
    } else {
        Some(digits_value(rest))
    }
}

/// Whether two texts hold the same characters.
pub fn str_eq(a: &str, b: &str) -> (r: bool)
    ensures
        r == (a@ == b@),
{
    let n = a.unicode_len();
    let m = b.unicode_len();
    if n != m {
        return false;
    }
    let mut i: usize = 0;
    while i < n
        invariant
            n == a@.len(),
            m == b@.len(),
            n == m,
            i <= n,
            forall|j: int| 0 <= j < i ==> a@[j] == b@[j],
        decreases n - i,
    {
        if a.get_char(i) != b.get_char(i) {
            return false;
        }
        i += 1;
    }
    assert(a@ =~= b@);
    true
}

fn digit_str(d: u64) -> (r: &'static str)
    requires
        d < 10,
    ensures
        r@ == seq![digit_char(d as int)],
{
    proof {
        reveal_strlit("0");
        reveal_strlit("1");
        reveal_strlit("2");
        reveal_strlit("3");
        reveal_strlit("4");
        reveal_strlit("5");
        reveal_strlit("6");
        reveal_strlit("7");
        reveal_strlit("8");
        reveal_strlit("9");
    }
    let r = if d == 0 {
        "0"
    } else if d == 1 {
        "1"
    } else if d == 2 {
        "2"
    } else if d == 3 {
        "3"
    } else if d == 4 {
        "4"
    } else if d == 5 {
        "5"
    } else if d == 6 {
        "6"
    } else if d == 7 {
        "7"
    } else if d == 8 {
        "8"
    } else {
        "9"
    };
    assert(r@ =~= seq![digit_char(d as int)]);
    r
}

/// Decimal text of an unsigned integer.
pub fn nat_to_string(n: u64) -> (r: String)
    ensures
        r@ == nat_text(n as nat),
    decreases n,
{
    if n < 10 {
        String::from_str(digit_str(n))
    } else {
        let mut s = nat_to_string(n / 10);
        s.append(digit_str(n % 10));
        s
    }
}

/// Decimal text of a signed integer.
pub fn int_to_string(i: i64) -> (r: String)
    ensures
        r@ == int_text(i as int),
{
    if i < 0 {
        let mag: u64 = if i == i64::MIN {
            9223372036854775808u64
        } else {
            (-i) as u64
        };
        proof {
            reveal_strlit("-");
        }
        let digits = nat_to_string(mag);
        let r = String::from_str("-").concat(digits.as_str());
        assert(r@ =~= int_text(i as int));
        r
    } else {
        nat_to_string(i as u64)
    }
}

/// The integer a text denotes (see `parse_int_text`), when its magnitude is at most 2^64;
/// `None` when the text denotes no integer or a larger one.
pub fn parse_integer(s: &str, signed: bool) -> (r: Option<i128>)
    ensures
        match parse_int_text(s@, signed) {
            None => r is None,
            Some(v) => if -0x1_0000_0000_0000_0000 <= v <= 0x1_0000_0000_0000_0000 {
                r == Some(v as i128)
            } else {
                r is None
            },
        },
{
    let n = s.unicode_len();
    let mut start: usize = 0;
    let mut neg = false;
    if n > 0 {
        let c = s.get_char(0);
        if c == '+' {
            start = 1;
        } else if signed && c == '-' {
            start = 1;
            neg = true;
        }
    }
    let ghost rest = if start == 1 { s@.drop_first() } else { s@ };
    assert(rest =~= s@.subrange(start as int, n as int));
    assert(n > 0 ==> s@[0] == s@[0]);
    assert(neg == (signed && s@.len() > 0 && s@[0] == '-'));
    assert(parse_int_text(s@, signed) == (if rest.len() == 0 || !all_digits(rest) {
        None
    } else if neg {
        Some(-digits_value(rest))
    } else {
        Some(digits_value(rest))
    }));
    if start == n {
        return None;
    }
    let limit: u128 = 0x1_0000_0000_0000_0000;
    let mut acc: u128 = 0;
    let mut big = false;
    let mut i: usize = start;
    while i < n
        invariant
            n == s@.len(),
            start <= i <= n,
            rest == s@.subrange(start as int, n as int),
            all_digits(s@.subrange(start as int, i as int)),
            !big ==> acc as int == digits_value(s@.subrange(start as int, i as int)),
            !big ==> acc <= limit,
            big ==> digits_value(s@.subrange(start as int, i as int)) > limit,
            limit == 0x1_0000_0000_0000_0000u128,
            parse_int_text(s@, signed) == (if rest.len() == 0 || !all_digits(rest) {
                None
            } else if neg {
                Some(-digits_value(rest))
            } else {
                Some(digits_value(rest))
            }),
        decreases n - i,
    {
        let c = s.get_char(i);
        if !('0' <= c && c <= '9') {
            assert(rest[i - start] == c);
            assert(!is_digit(rest[i - start]));
            assert(!all_digits(rest));
            return None;
        }
        let ghost prev = s@.subrange(start as int, i as int);
        let ghost next = s@.subrange(start as int, i + 1);
        assert(next.drop_last() =~= prev);
        assert(next.last() == c);
        assert(all_digits(next)) by {
            assert forall|j: int| 0 <= j < next.len() implies is_digit(#[trigger] next[j]) by {
                if j < prev.len() {
                    assert(next[j] == prev[j]);
                }
            }
        }
        let d = (c as u32 - '0' as u32) as u128;
        if !big {
            let v = acc * 10 + d;
            if v > limit {
                big = true;
            } else {
                acc = v;
            }
        } else {
            assert(digits_value(next) >= digits_value(prev)) by {
                assert(digits_value(prev) >= 0) by {
                    lemma_digits_value_nonneg(prev);
                }
            }
        }
        i += 1;
    }
    assert(rest =~= s@.subrange(start as int, i as int));
    if big {
        None
    } else if neg {
        Some(-(acc as i128))
    } else {
        Some(acc as i128)
    }
}

proof fn lemma_digits_value_nonneg(s: Seq<char>)
    requires
        all_digits(s),
    ensures
        digits_value(s) >= 0,
    decreases s.len(),
{
    if s.len() > 0 {
        assert(all_digits(s.drop_last())) by {
            assert forall|j: int| 0 <= j < s.drop_last().len() implies is_digit(
                #[trigger] s.drop_last()[j],
            ) by {
                assert(s.drop_last()[j] == s[j]);
            }
        }
        lemma_digits_value_nonneg(s.drop_last());
        assert(is_digit(s[s.len() - 1]));
    }
}

} // verus!
