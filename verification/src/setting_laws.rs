//! What holds of the setting of the size limit.

use crate::action::EventView;
use crate::budget;
use crate::text;
use vstd::prelude::*;

verus! {

/// The decimal digits of `n`, most significant first.
pub open spec fn written(n: nat) -> Seq<char>
    decreases n,
{
    let digits = seq!['0', '1', '2', '3', '4', '5', '6', '7', '8', '9'];
    if n < 10 {
        seq![digits[n as int]]
    } else {
        written(n / 10).push(digits[(n % 10) as int])
    }
}

/// Whether `s` is white space throughout.
pub open spec fn blank(s: Seq<char>) -> bool {
    forall|i: int| 0 <= i < s.len() ==> text::white_space(#[trigger] s[i])
}

/// Whether `s` is made of ASCII decimal digits.
pub open spec fn digits_only(s: Seq<char>) -> bool {
    forall|i: int| 0 <= i < s.len() ==> '0' <= #[trigger] s[i] <= '9'
}

/// The digits of a number are digits that write it.
proof fn lemma_written(n: nat)
    ensures
        written(n).len() > 0,
        digits_only(written(n)),
        text::decimal(written(n)) == n,
    decreases n,
{
    reveal_with_fuel(text::decimal, 2);
    let digits = seq!['0', '1', '2', '3', '4', '5', '6', '7', '8', '9'];
    assert(forall|d: int| 0 <= d < 10 ==> '0' <= #[trigger] digits[d] <= '9');
    assert(forall|d: int| 0 <= d < 10 ==> #[trigger] digits[d] as int - '0' as int == d);
    if n < 10 {
        assert(written(n).drop_last() =~= Seq::<char>::empty());
    } else {
        lemma_written(n / 10);
        assert(written(n).drop_last() =~= written(n / 10));
    }
}

/// White space at the two ends is dropped, and nothing else.
proof fn lemma_trimmed(before: Seq<char>, core: Seq<char>, after: Seq<char>)
    requires
        blank(before),
        blank(after),
        core.len() > 0,
        !text::white_space(core.first()),
        !text::white_space(core.last()),
    ensures
        text::trimmed(before + core + after) == core,
    decreases before.len() + after.len(),
{
    let whole = before + core + after;
    if before.len() > 0 {
        assert(whole.first() == before[0]);
        assert(whole.drop_first() =~= before.drop_first() + core + after);
        assert(blank(before.drop_first())) by {
            assert forall|i: int| 0 <= i < before.drop_first().len() implies text::white_space(
                #[trigger] before.drop_first()[i],
            ) by {
                assert(text::white_space(before[i + 1]));
            }
        }
        lemma_trimmed(before.drop_first(), core, after);
    } else {
        assert(whole.first() == core.first());
        if after.len() > 0 {
            assert(whole.last() == after[after.len() - 1]);
            assert(whole.drop_last() =~= before + core + after.drop_last());
            lemma_trimmed(before, core, after.drop_last());
        } else {
            assert(whole =~= core);
        }
    }
}

/// Digits are read as the number that they write.
proof fn lemma_parsed_digits(s: Seq<char>)
    requires
        s.len() > 0,
        digits_only(s),
    ensures
        text::parsed(s) == if text::decimal(s) <= u64::MAX {
            Some(text::decimal(s) as u64)
        } else {
            None
        },
        text::parsed(seq!['+'] + s) == text::parsed(s),
        !text::white_space(s.first()),
        !text::white_space(s.last()),
{
    assert('0' <= s[0] <= '9');
    assert('0' <= s[s.len() - 1] <= '9');
    assert((seq!['+'] + s).drop_first() =~= s);
    assert(s.all(|c: char| text::digit(c))) by {
        let ok = |c: char| text::digit(c);
        assert forall|i: int| 0 <= i < s.len() implies ok(#[trigger] s[i]) by {
            assert('0' <= s[i] <= '9');
        }
    }
}

/// **A written number is read back.** The decimal digits of a number, with or without
/// a plus sign before them and white space round them, are read as that number where
/// it is no larger than `u64::MAX`, and else as none.
pub proof fn law_a_written_number_is_read_back(before: Seq<char>, n: nat, after: Seq<char>)
    requires
        blank(before),
        blank(after),
    ensures
        n <= u64::MAX ==> text::parsed(text::trimmed(before + written(n) + after)) == Some(n as u64),
        n <= u64::MAX ==> text::parsed(text::trimmed(before + (seq!['+'] + written(n)) + after))
            == Some(n as u64),
        n > u64::MAX ==> text::parsed(text::trimmed(before + written(n) + after)) is None,
        n > u64::MAX ==> text::parsed(text::trimmed(before + (seq!['+'] + written(n)) + after))
            is None,
{
    lemma_written(n);
    lemma_parsed_digits(written(n));
    let signed = seq!['+'] + written(n);
    lemma_trimmed(before, written(n), after);
    assert(signed.first() == '+');
    assert(signed.last() == written(n).last());
    lemma_trimmed(before, signed, after);
}

/// **Leading zeros and a plus sign.** Digits are read as the same number with a zero or
/// a plus sign before them, and any digits are read where the number is no larger than
/// `u64::MAX`. What holds anything but digits after an optional plus sign is no number.
pub proof fn law_what_is_read_as_a_number(s: Seq<char>)
    requires
        s.len() > 0,
    ensures
        digits_only(s) ==> text::parsed(seq!['0'] + s) == text::parsed(s),
        digits_only(s) ==> text::parsed(seq!['+'] + s) == text::parsed(s),
        digits_only(s) ==> (text::parsed(s) is Some <==> text::decimal(s) <= u64::MAX),
        digits_only(s) && text::parsed(s) is Some ==> text::parsed(s).unwrap() == text::decimal(s),
        text::parsed(s) is Some ==> digits_only(s.skip(1)) && ('0' <= s[0] <= '9' || (s[0] == '+'
            && s.len() > 1)),
        text::parsed(Seq::empty()) is None,
{
    let ok = |c: char| text::digit(c);
    let digits = text::unsigned(s);
    if digits_only(s) {
        lemma_parsed_digits(s);
        let longer = seq!['0'] + s;
        assert(digits_only(longer)) by {
            assert forall|i: int| 0 <= i < longer.len() implies '0' <= #[trigger] longer[i]
                <= '9' by {
                if i > 0 {
                    assert('0' <= s[i - 1] <= '9');
                }
            }
        }
        lemma_parsed_digits(longer);
        law_a_further_digit(s, '0');
        lemma_not_negative(s);
    }
    if text::parsed(s) is Some {
        assert(digits.all(ok));
        assert forall|i: int| 0 <= i < s.skip(1).len() implies '0' <= #[trigger] s.skip(1)[i]
            <= '9' by {
            if s.first() == '+' {
                assert(ok(digits[i]));
            } else {
                assert(ok(digits[i + 1]));
            }
        }
        if s.first() != '+' {
            assert(ok(digits[0]));
        }
    }
}

/// Digits write no negative number.
proof fn lemma_not_negative(s: Seq<char>)
    requires
        digits_only(s),
    ensures
        text::decimal(s) >= 0,
    decreases s.len(),
{
    if s.len() > 0 {
        assert('0' <= s[s.len() - 1] <= '9');
        assert(digits_only(s.drop_last())) by {
            assert forall|i: int| 0 <= i < s.drop_last().len() implies '0'
                <= #[trigger] s.drop_last()[i] <= '9' by {
                assert('0' <= s[i] <= '9');
            }
        }
        lemma_not_negative(s.drop_last());
    }
}

/// **The limit is the setting in mebibytes.** A setting that writes a positive number
/// of mebibytes, with white space round it, is the limit; where that is more than
/// `u64::MAX` bytes the limit is `u64::MAX`. Zero, and a number that is too large to
/// be read, leave the limit at 500 mebibytes.
pub proof fn law_the_limit_is_the_setting_in_mebibytes(
    before: Seq<char>,
    n: nat,
    after: Seq<char>,
)
    requires
        blank(before),
        blank(after),
    ensures
        ({
            let limit = EventView::Setting(Some(before + written(n) + after)).cap();
            &&& n == 0 || n > u64::MAX ==> limit == 524_288_000
            &&& 0 < n && n * 1_048_576 <= u64::MAX ==> limit == n * 1_048_576
            &&& n <= u64::MAX && n * 1_048_576 > u64::MAX ==> limit == u64::MAX
        }),
{
    law_a_written_number_is_read_back(before, n, after);
}

/// **Without a number the limit is 500 mebibytes.** So it is where there is no
/// setting, and where the setting, without the white space round it, is empty or
/// holds anything but digits after an optional plus sign.
pub proof fn law_without_a_number_the_limit_is_the_default(value: Seq<char>)
    ensures
        EventView::Setting(None).cap() == 524_288_000,
        EventView::Done.cap() == 524_288_000,
        ({
            let core = text::trimmed(value);
            ||| core.len() == 0
            ||| core == seq!['+']
            ||| exists|i: int|
                0 <= i < core.len() && !('0' <= #[trigger] core[i] <= '9') && !(i == 0 && core[i]
                    == '+')
        }) ==> EventView::Setting(Some(value)).cap() == 524_288_000,
{
    let core = text::trimmed(value);
    let digits = text::unsigned(core);
    let ok = |c: char| text::digit(c);
    if core == seq!['+'] {
        assert(digits.len() == 0);
    }
    if exists|i: int|
        0 <= i < core.len() && !('0' <= #[trigger] core[i] <= '9') && !(i == 0 && core[i] == '+') {
        let i = choose|i: int|
            0 <= i < core.len() && !('0' <= #[trigger] core[i] <= '9') && !(i == 0 && core[i]
                == '+');
        if core.first() == '+' {
            assert(!ok(digits[i - 1]));
        } else {
            assert(!ok(digits[i]));
        }
        assert(!digits.all(ok));
    }
}

/// **A digit more.** A further digit makes ten times the number and the digit of it,
/// and leading zeros change nothing.
pub proof fn law_a_further_digit(s: Seq<char>, c: char)
    ensures
        text::decimal(Seq::empty()) == 0,
        text::decimal(s.push(c)) == 10 * text::decimal(s) + (c as int - '0' as int),
        text::decimal(seq!['0'] + s) == text::decimal(s),
    decreases s.len(),
{
    assert(s.push(c).drop_last() =~= s);
    if s.len() > 0 {
        law_a_further_digit(s.drop_last(), c);
        assert((seq!['0'] + s).drop_last() =~= seq!['0'] + s.drop_last());
    } else {
        assert((seq!['0'] + s).drop_last() =~= Seq::<char>::empty());
        reveal_with_fuel(text::decimal, 2);
    }
}

/// **Trimming drops the white space at the two ends, and nothing else.** What is left
/// neither begins nor ends with white space, and what is dropped is white space.
pub proof fn law_trimming_drops_white_space(s: Seq<char>)
    ensures
        exists|before: Seq<char>, after: Seq<char>|
            blank(before) && blank(after) && s == #[trigger] (before + text::trimmed(s) + after),
        text::trimmed(s).len() > 0 ==> !text::white_space(text::trimmed(s).first())
            && !text::white_space(text::trimmed(s).last()),
    decreases s.len(),
{
    if s.len() > 0 && text::white_space(s.first()) {
        let rest = s.drop_first();
        law_trimming_drops_white_space(rest);
        let (before, after) = choose|before: Seq<char>, after: Seq<char>|
            blank(before) && blank(after) && rest == #[trigger] (before + text::trimmed(rest)
                + after);
        let longer = seq![s.first()] + before;
        assert(blank(longer)) by {
            assert forall|i: int| 0 <= i < longer.len() implies text::white_space(
                #[trigger] longer[i],
            ) by {
                if i > 0 {
                    assert(text::white_space(before[i - 1]));
                }
            }
        }
        assert(text::trimmed(s) == text::trimmed(rest));
        assert(rest == before + text::trimmed(s) + after);
        assert(s =~= seq![s.first()] + rest);
        assert(s =~= longer + text::trimmed(s) + after);
    } else if s.len() > 0 && text::white_space(s.last()) {
        let rest = s.drop_last();
        law_trimming_drops_white_space(rest);
        let (before, after) = choose|before: Seq<char>, after: Seq<char>|
            blank(before) && blank(after) && rest == #[trigger] (before + text::trimmed(rest)
                + after);
        let longer = after.push(s.last());
        assert(text::trimmed(s) == text::trimmed(rest));
        assert(rest == before + text::trimmed(s) + after);
        assert(s =~= rest.push(s.last()));
        assert(s =~= before + text::trimmed(s) + longer);
    } else {
        assert(s =~= Seq::<char>::empty() + text::trimmed(s) + Seq::<char>::empty());
    }
}

} // verus!
