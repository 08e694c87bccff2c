//! Reading decimal numbers from text.

use vstd::prelude::*;

verus! {

/// Whether `c` is one of the digits `0` to `9`.
pub open spec fn is_digit(c: char) -> bool {
    '0' <= c && c <= '9'
}

/// The value of a digit.
pub open spec fn digit_value(c: char) -> nat
    recommends
        is_digit(c),
{
    (c as u32 - '0' as u32) as nat
}

/// Whether `d` holds digits only.
pub open spec fn all_digits(d: Seq<char>) -> bool {
    forall|i: int| 0 <= i < d.len() ==> is_digit(#[trigger] d[i])
}

/// The number that the digits `d` write in decimal.
pub open spec fn digits_value(d: Seq<char>) -> nat
    decreases d.len(),
{
    if d.len() == 0 {
        0
    } else {
        digits_value(d.drop_last()) * 10 + digit_value(d.last())
    }
}

/// The number that `d` writes if it is a number of at most `max`: at least
/// one character, digits only.
pub open spec fn digits_spec(d: Seq<char>, max: nat) -> Option<nat> {
    if d.len() > 0 && all_digits(d) && digits_value(d) <= max {
        Some(digits_value(d))
    } else {
        None
    }
}

/// The number of at most `max` that `s` writes, with `+` allowed in front.
pub open spec fn unsigned_spec(s: Seq<char>, max: nat) -> Option<nat> {
    if s.len() > 0 && s[0] == '+' {
        digits_spec(s.drop_first(), max)
    } else {
        digits_spec(s, max)
    }
}

/// The number from -2147483648 to 2147483647 that `s` writes, with `+` or
/// `-` allowed in front.
pub open spec fn signed_spec(s: Seq<char>) -> Option<int> {
    if s.len() > 0 && s[0] == '-' {
        match digits_spec(s.drop_first(), 2147483648) {
            Some(n) => Some(-(n as int)),
            None => None,
        }
    } else {
        match unsigned_spec(s, 2147483647) {
            Some(n) => Some(n as int),
            None => None,
        }
    }
}

/// More digits never write a smaller number.
pub proof fn lemma_digits_value_grows(d: Seq<char>, n: int)
    requires
        0 <= n <= d.len(),
    ensures
        digits_value(d.subrange(0, n)) <= digits_value(d),
    decreases d.len() - n,
{
    if n == d.len() {
        assert(d.subrange(0, n) =~= d);
    } else {
        lemma_digits_value_grows(d.drop_last(), n);
        assert(d.drop_last().subrange(0, n) =~= d.subrange(0, n));
    }
}

/// Reads the digits of `v` from `from` to its end as a number of at most
/// `max`.
pub fn parse_digits(v: &Vec<char>, from: usize, max: u64) -> (r: Option<u64>)
    requires
        from <= v.len(),
    ensures
        match r {
            Some(n) => digits_spec(v@.subrange(from as int, v.len() as int), max as nat) == Some(
                n as nat,
            ),
            None => digits_spec(v@.subrange(from as int, v.len() as int), max as nat) is None,
        },
{
    let ghost d = v@.subrange(from as int, v.len() as int);
    if from == v.len() {
        return None;
    }
    let mut acc: u64 = 0;
    let mut i: usize = from;
    assert(d.subrange(0, 0) =~= Seq::<char>::empty());
    while i < v.len()
        invariant
            from <= i <= v.len(),
            d == v@.subrange(from as int, v.len() as int),
            acc <= max,
            acc == digits_value(d.subrange(0, i - from)),
            all_digits(d.subrange(0, i - from)),
        decreases v.len() - i,
    {
        let c = v[i];
        assert(c == d[i - from]);
        if !('0' <= c && c <= '9') {
            return None;
        }
        let digit: u64 = (c as u32 - '0' as u32) as u64;
        let ghost longer = d.subrange(0, i - from + 1);
        assert(longer.drop_last() =~= d.subrange(0, i - from));
        assert(longer.last() == c);
        assert(digits_value(longer) == acc * 10 + digit);
        if acc > (u64::MAX - digit) / 10 || acc * 10 + digit > max {
            proof {
                lemma_digits_value_grows(d, i - from + 1);
            }
            return None;
        }
        acc = acc * 10 + digit;
        i += 1;
        assert forall|k: int| 0 <= k < longer.len() implies is_digit(#[trigger] longer[k]) by {
            if k < longer.len() - 1 {
                assert(longer[k] == d.subrange(0, i - from - 1)[k]);
            }
        }
    }
    assert(d.subrange(0, i - from) =~= d);
    Some(acc)
}

/// Reads `s` as a number that fits a `usize`; `+` may stand in front.
pub fn parse_usize(s: &Vec<char>) -> (r: Option<usize>)
    ensures
        match r {
            Some(n) => unsigned_spec(s@, usize::MAX as nat) == Some(n as nat),
            None => unsigned_spec(s@, usize::MAX as nat) is None,
        },
{
    let from: usize = if s.len() > 0 && s[0] == '+' {
        1
    } else {
        0
    };
    assert(s@.subrange(from as int, s.len() as int) =~= if from == 1 {
        s@.drop_first()
    } else {
        s@
    });
    match parse_digits(s, from, usize::MAX as u64) {
        Some(n) => Some(n as usize),
        None => None,
    }
}

/// Reads `s` as a number that fits an `i32`; `+` or `-` may stand in front.
pub fn parse_i32(s: &Vec<char>) -> (r: Option<i32>)
    ensures
        match r {
            Some(n) => signed_spec(s@) == Some(n as int),
            None => signed_spec(s@) is None,
        },
{
    if s.len() > 0 && s[0] == '-' {
        assert(s@.subrange(1, s.len() as int) =~= s@.drop_first());
        match parse_digits(s, 1, 2147483648) {
            Some(n) => {
                if n == 2147483648 {
                    Some(i32::MIN)
                } else {
                    Some(0 - (n as i32))
                }
            },
            None => None,
        }
    } else {
        let from: usize = if s.len() > 0 && s[0] == '+' {
            1
        } else {
            0
        };
        assert(s@.subrange(from as int, s.len() as int) =~= if from == 1 {
            s@.drop_first()
        } else {
            s@
        });
        match parse_digits(s, from, 2147483647) {
            Some(n) => Some(n as i32),
            None => None,
        }
    }
}

} // verus!
