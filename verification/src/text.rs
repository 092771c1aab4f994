//! Reading an unsigned number out of a setting.

use vstd::prelude::*;

verus! {

/// The characters with the Unicode property White_Space.
pub open spec fn white_space(c: char) -> bool {
    let n = c as u32;
    ||| 0x9 <= n <= 0xd
    ||| n == 0x20
    ||| n == 0x85
    ||| n == 0xa0
    ||| n == 0x1680
    ||| 0x2000 <= n <= 0x200a
    ||| n == 0x2028
    ||| n == 0x2029
    ||| n == 0x202f
    ||| n == 0x205f
    ||| n == 0x3000
}

/// `s` without the white space at its two ends.
pub open spec fn trimmed(s: Seq<char>) -> Seq<char>
    decreases s.len(),
{
    if s.len() > 0 && white_space(s.first()) {
        trimmed(s.drop_first())
    } else if s.len() > 0 && white_space(s.last()) {
        trimmed(s.drop_last())
    } else {
        s
    }
}

/// The ASCII decimal digits.
pub open spec fn digit(c: char) -> bool {
    '0' <= c <= '9'
}

/// The number that a sequence of decimal digits writes, most significant first.
pub open spec fn decimal(s: Seq<char>) -> int
    decreases s.len(),
{
    if s.len() == 0 {
        0
    } else {
        10 * decimal(s.drop_last()) + (s.last() as int - '0' as int)
    }
}

/// `s` without one leading plus sign.
pub open spec fn unsigned(s: Seq<char>) -> Seq<char> {
    if s.len() > 0 && s.first() == '+' {
        s.drop_first()
    } else {
        s
    }
}

/// The number that `s` writes: an optional plus sign, then one or more digits
/// and nothing else, within the range of `u64`.
pub open spec fn parsed(s: Seq<char>) -> Option<u64> {
    let digits = unsigned(s);
    if digits.len() > 0 && digits.all(|c: char| digit(c)) && decimal(digits) <= u64::MAX {
        Some(decimal(digits) as u64)
    } else {
        None
    }
}

/// Whether `c` is white space.
pub fn is_white_space(c: char) -> (b: bool)
    ensures
        b == white_space(c),
{
    let n: u32 = c as u32;
    (0x9 <= n && n <= 0xd) || n == 0x20 || n == 0x85 || n == 0xa0 || n == 0x1680 || (0x2000 <= n
        && n <= 0x200a) || n == 0x2028 || n == 0x2029 || n == 0x202f || n == 0x205f || n == 0x3000
}

/// The characters of `s`, in order.
fn characters(s: &str) -> (chars: Vec<char>)
    ensures
        chars@ == s@,
{
    let mut chars: Vec<char> = Vec::new();
    for c in iter: s.chars()
        invariant
            chars@ == iter.seq().take(iter.index() as int),
            iter.seq() == s@,
    {
        chars.push(c);
    }
    chars
}

/// A prefix of a number writes no more than the whole number.
proof fn lemma_decimal_prefix(s: Seq<char>, n: int)
    requires
        0 <= n <= s.len(),
        s.all(|c: char| digit(c)),
    ensures
        0 <= decimal(s.take(n)) <= decimal(s),
    decreases s.len() - n,
{
    let whole = |c: char| digit(c);
    if n < s.len() {
        lemma_decimal_prefix(s, n + 1);
        let longer = s.take(n + 1);
        assert(longer.drop_last() =~= s.take(n));
        assert(whole(s[n]));
        lemma_decimal_nonnegative(s.take(n));
    } else {
        assert(s.take(n) =~= s);
        lemma_decimal_nonnegative(s);
    }
}

/// A sequence of digits writes no negative number.
proof fn lemma_decimal_nonnegative(s: Seq<char>)
    requires
        s.all(|c: char| digit(c)),
    ensures
        0 <= decimal(s),
    decreases s.len(),
{
    let whole = |c: char| digit(c);
    if s.len() > 0 {
        assert forall|i: int| 0 <= i < s.drop_last().len() implies whole(
            #[trigger] s.drop_last()[i],
        ) by {
            assert(whole(s[i]));
        }
        assert(whole(s.last()));
        lemma_decimal_nonnegative(s.drop_last());
    }
}

/// The number that `text` writes once the white space round it is dropped.
pub fn parse_u64(text: &str) -> (value: Option<u64>)
    ensures
        value == parsed(trimmed(text@)),
{
    let chars = characters(text);
    let mut low: usize = 0;
    let mut high: usize = chars.len();
    assert(chars@.subrange(0, high as int) =~= text@);
    while low < high && is_white_space(chars[low])
        invariant
            low <= high == chars@.len(),
            chars@ == text@,
            trimmed(chars@.subrange(low as int, high as int)) == trimmed(text@),
        decreases high - low,
    {
        proof {
            let rest = chars@.subrange(low as int, high as int);
            assert(rest.first() == chars@[low as int]);
            assert(rest.drop_first() =~= chars@.subrange(low + 1, high as int));
        }
        low = low + 1;
    }
    while low < high && is_white_space(chars[high - 1])
        invariant
            low <= high <= chars@.len(),
            chars@ == text@,
            low < high ==> !white_space(chars@[low as int]),
            trimmed(chars@.subrange(low as int, high as int)) == trimmed(text@),
        decreases high - low,
    {
        proof {
            let rest = chars@.subrange(low as int, high as int);
            assert(rest.first() == chars@[low as int]);
            assert(rest.last() == chars@[high - 1]);
            assert(rest.drop_last() =~= chars@.subrange(low as int, high - 1));
        }
        high = high - 1;
    }
    let ghost body = chars@.subrange(low as int, high as int);
    proof {
        assert(body == trimmed(text@));
    }
    if low < high && chars[low] == '+' {
        low = low + 1;
    }
    let ghost digits = chars@.subrange(low as int, high as int);
    proof {
        assert(digits =~= unsigned(body));
    }
    if low == high {
        return None;
    }
    let ghost ok = |c: char| digit(c);
    let mut value: u64 = 0;
    let mut at: usize = low;
    while at < high
        invariant
            low <= at <= high <= chars@.len(),
            digits == chars@.subrange(low as int, high as int),
            digits == unsigned(trimmed(text@)),
            forall|i: int| 0 <= i < at - low ==> digit(digits[i]),
            value == decimal(digits.take(at - low)),
            ok == (|c: char| digit(c)),
        decreases high - at,
    {
        let c = chars[at];
        assert(digits[at - low] == c);
        if c < '0' || '9' < c {
            assert(!ok(digits[at - low]));
            return None;
        }
        proof {
            let longer = digits.take(at - low + 1);
            assert(longer.drop_last() =~= digits.take(at - low));
            assert(longer.last() == c);
            if digits.all(ok) {
                lemma_decimal_prefix(digits, at - low + 1);
            }
        }
        let unit: u64 = (c as u32 - '0' as u32) as u64;
        match value.checked_mul(10) {
            None => {
                return None;
            },
            Some(shifted) => match shifted.checked_add(unit) {
                None => {
                    return None;
                },
                Some(sum) => {
                    value = sum;
                },
            },
        }
        at = at + 1;
    }
    proof {
        assert(digits.take(high - low) =~= digits);
        assert forall|i: int| 0 <= i < digits.len() implies ok(#[trigger] digits[i]) by {}
    }
    Some(value)
}

} // verus!
