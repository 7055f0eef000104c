//! Decimal numbers as they are read.
use crate::text::{chars_of, decimal, digit_char};
use vstd::prelude::*;

verus! {

broadcast use vstd::string::group_string_axioms;

/// The value of a decimal digit.
pub open spec fn digit_value(c: char) -> Option<nat> {
    if '0' <= c <= '9' {
        Some((c as u32 - '0' as u32) as nat)
    } else {
        None
    }
}

/// The value of decimal digits.
pub open spec fn digits_value(s: Seq<char>) -> Option<nat>
    decreases s.len(),
{
    if s.len() == 0 {
        Some(0)
    } else {
        match (digits_value(s.drop_last()), digit_value(s.last())) {
            (Some(front), Some(d)) => Some(10 * front + d),
            _ => None,
        }
    }
}

/// A number of 32 bits as it is read: digits, after a sign or none.
pub open spec fn int_value(s: Seq<char>) -> Option<int> {
    let negative = s.len() > 0 && s[0] == '-';
    let digits = if s.len() > 0 && (s[0] == '-' || s[0] == '+') {
        s.skip(1)
    } else {
        s
    };
    if digits.len() == 0 {
        None
    } else {
        match digits_value(digits) {
            Some(n) => {
                let value = if negative {
                    -(n as int)
                } else {
                    n as int
                };
                if i32::MIN <= value <= i32::MAX {
                    Some(value)
                } else {
                    None
                }
            },
            None => None,
        }
    }
}

proof fn lemma_digits_grow(s: Seq<char>, k: int)
    requires
        0 <= k <= s.len(),
    ensures
        digits_value(s.take(k)) is None ==> digits_value(s) is None,
        digits_value(s) is Some ==> digits_value(s.take(k)) is Some && digits_value(s.take(k))->0
            <= digits_value(s)->0,
    decreases s.len() - k,
{
    if k == s.len() {
        assert(s.take(k) =~= s);
    } else {
        lemma_digits_grow(s, k + 1);
        assert(s.take(k + 1).drop_last() =~= s.take(k));
    }
}

/// Reads the number of 32 bits that `v[from..to]` is.
pub fn parse_i32(v: &Vec<char>, from: usize, to: usize) -> (r: Option<i32>)
    requires
        from <= to <= v@.len(),
    ensures
        match r {
            Some(n) => int_value(v@.subrange(from as int, to as int)) == Some(n as int),
            None => int_value(v@.subrange(from as int, to as int)) is None,
        },
{
    let ghost s = v@.subrange(from as int, to as int);
    let negative = from < to && v[from] == '-';
    let start: usize = if from < to && (v[from] == '-' || v[from] == '+') {
        from + 1
    } else {
        from
    };
    let ghost digits = v@.subrange(start as int, to as int);
    proof {
        if start > from {
            assert(s.skip(1) =~= digits);
        } else {
            assert(s =~= digits);
        }
    }
    if start == to {
        return None;
    }
    let mut acc: i64 = 0;
    let mut i: usize = start;
    assert(digits.take(0) =~= Seq::<char>::empty());
    while i < to
        invariant
            from <= start <= i <= to <= v@.len(),
            s == v@.subrange(from as int, to as int),
            digits == v@.subrange(start as int, to as int),
            0 <= acc <= 0x8000_0000,
            digits_value(digits.take(i - start)) == Some(acc as nat),
            negative ==> (int_value(s) == (match digits_value(digits) {
                Some(n) => if n <= 0x8000_0000 {
                    Some(-(n as int))
                } else {
                    None
                },
                None => None,
            })),
            !negative ==> (int_value(s) == (match digits_value(digits) {
                Some(n) => if n < 0x8000_0000 {
                    Some(n as int)
                } else {
                    None
                },
                None => None,
            })),
        decreases to - i,
    {
        let c: char = v[i];
        let ghost next = digits.take(i + 1 - start);
        proof {
            assert(next.drop_last() =~= digits.take(i - start));
            assert(next.last() == c);
            lemma_digits_grow(digits, i + 1 - start);
        }
        if c < '0' || c > '9' {
            return None;
        }
        acc = acc * 10 + (c as u32 - '0' as u32) as i64;
        if acc > 0x8000_0000 {
            return None;
        }
        i = i + 1;
    }
    assert(digits.take(to - start) =~= digits);
    if negative {
        Some((-acc) as i32)
    } else if acc < 0x8000_0000 {
        Some(acc as i32)
    } else {
        None
    }
}

/// An unsigned number up to `max`: digits, after a plus sign or none.
pub open spec fn natural(s: Seq<char>, max: nat) -> Option<nat> {
    let digits = if s.len() > 0 && s[0] == '+' {
        s.skip(1)
    } else {
        s
    };
    if digits.len() == 0 {
        None
    } else {
        match digits_value(digits) {
            Some(n) => if n <= max {
                Some(n)
            } else {
                None
            },
            None => None,
        }
    }
}

/// An unsigned number of eight bits.
pub open spec fn small_number(s: Seq<char>) -> Option<nat> {
    natural(s, 255)
}

/// Reads the unsigned number of 32 bits that `s` is.
pub fn parse_u32(s: &str) -> (r: Option<u32>)
    ensures
        match r {
            Some(n) => natural(s@, u32::MAX as nat) == Some(n as nat),
            None => natural(s@, u32::MAX as nat) is None,
        },
{
    let v = chars_of(s);
    let start: usize = if v.len() > 0 && v[0] == '+' {
        1
    } else {
        0
    };
    let ghost digits = v@.subrange(start as int, v@.len() as int);
    proof {
        if start == 1 {
            assert(v@.skip(1) =~= digits);
        } else {
            assert(v@ =~= digits);
        }
    }
    if start == v.len() {
        return None;
    }
    let mut acc: u64 = 0;
    let mut i: usize = start;
    assert(digits.take(0) =~= Seq::<char>::empty());
    while i < v.len()
        invariant
            start <= i <= v@.len(),
            v@ == s@,
            digits == v@.subrange(start as int, v@.len() as int),
            digits.len() > 0,
            acc <= u32::MAX,
            digits_value(digits.take(i - start)) == Some(acc as nat),
            natural(s@, u32::MAX as nat) == (match digits_value(digits) {
                Some(n) => if n <= u32::MAX {
                    Some(n)
                } else {
                    None
                },
                None => None,
            }),
        decreases v@.len() - i,
    {
        let c: char = v[i];
        let ghost next = digits.take(i + 1 - start);
        proof {
            assert(next.drop_last() =~= digits.take(i - start));
            assert(next.last() == c);
            lemma_digits_grow(digits, i + 1 - start);
        }
        if c < '0' || c > '9' {
            return None;
        }
        acc = acc * 10 + (c as u32 - '0' as u32) as u64;
        if acc > u32::MAX as u64 {
            return None;
        }
        i = i + 1;
    }
    assert(digits.take(v@.len() - start) =~= digits);
    Some(acc as u32)
}

/// A number is read back from its decimal digits.
pub proof fn law_decimal_is_read_back(n: nat)
    ensures
        digits_value(decimal(n)) == Some(n),
        decimal(n).len() > 0,
        forall|i: int| 0 <= i < decimal(n).len() ==> '0' <= #[trigger] decimal(n)[i] <= '9',
    decreases n,
{
    reveal_with_fuel(digits_value, 2);
    if n < 10 {
        assert(decimal(n).drop_last() =~= Seq::empty());
        assert(decimal(n).last() == digit_char(n));
    } else {
        law_decimal_is_read_back(n / 10);
        assert(decimal(n).drop_last() =~= decimal(n / 10));
        assert(decimal(n).last() == digit_char(n % 10));
    }
}

/// Reads the unsigned number of eight bits that `s` is.
pub fn parse_u8(s: &str) -> (r: Option<u8>)
    ensures
        match r {
            Some(n) => small_number(s@) == Some(n as nat),
            None => small_number(s@) is None,
        },
{
    let v = chars_of(s);
    let start: usize = if v.len() > 0 && v[0] == '+' {
        1
    } else {
        0
    };
    let ghost digits = v@.subrange(start as int, v@.len() as int);
    proof {
        if start == 1 {
            assert(v@.skip(1) =~= digits);
        } else {
            assert(v@ =~= digits);
        }
    }
    if start < v.len() && (v[start] == '-' || v[start] == '+') {
        proof {
            lemma_digits_grow(digits, 1);
            assert(digits.take(1).last() == v@[start as int]);
        }
        return None;
    }
    match parse_i32(&v, start, v.len()) {
        Some(n) => {
            if 0 <= n && n <= 255 {
                Some(n as u8)
            } else {
                None
            }
        },
        None => None,
    }
}

} // verus!
