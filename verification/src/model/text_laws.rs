//! How numbers and workspaces are written and read.
use vstd::prelude::*;

verus! {

/// The digits are the characters from `0` to `9`, and denote the numbers from zero to nine in that
/// order.
pub proof fn digits_denote_zero_to_nine(c: char)
    ensures
        crate::common::text::is_digit(c) <==> 48 <= c as int <= 57,
        crate::common::text::is_digit(c) ==> crate::common::text::number(seq![c]) == c as int - 48,
        crate::common::text::is_digit(c) ==> crate::common::text::decimal((c as int - 48) as nat)
            == seq![c],
        crate::common::text::number(Seq::empty()) == 0,
{
    assert(seq![c].drop_last() =~= Seq::<char>::empty());
    assert(crate::common::text::number(seq![c].drop_last()) == 0);
}

/// A run of digits is read with the more significant digits first: what stands in front counts ten
/// times as much for each digit behind it.
pub proof fn front_digits_count_more(a: Seq<char>, b: Seq<char>)
    ensures
        crate::common::text::number(a + b) == crate::common::text::number(a) * vstd::arithmetic::power::pow(
            10,
            b.len(),
        ) + crate::common::text::number(b),
    decreases b.len(),
{
    reveal(vstd::arithmetic::power::pow);
    if b.len() == 0 {
        assert(a + b =~= a);
        assert(vstd::arithmetic::power::pow(10, 0) == 1);
    } else {
        let front = b.drop_last();
        front_digits_count_more(a, front);
        assert((a + b).drop_last() =~= a + front);
        let x = crate::common::text::number(a) as int;
        let p = vstd::arithmetic::power::pow(10, front.len());
        assert(vstd::arithmetic::power::pow(10, b.len()) == 10 * p);
        assert((x * p) * 10 == x * (10 * p)) by (nonlinear_arith);
    }
}

/// A numeral has no zeros in front of it, but for that of zero itself, so that a number has one
/// numeral.
pub proof fn numeral_has_no_leading_zero(n: nat)
    ensures
        crate::common::text::decimal(n).len() > 1 ==> crate::common::text::decimal(n)[0] != '0',
        crate::common::text::decimal(n)[0] == '0' <==> n == 0,
    decreases n,
{
    if n >= 10 {
        numeral_has_no_leading_zero(n / 10);
        crate::common::text::numeral_denotes_its_number(n / 10);
        assert(crate::common::text::decimal(n)[0] == crate::common::text::decimal(n / 10)[0]);
    }
}

/// Text that is padded has at least the width, is not made longer than that, ends in what it was, and
/// has nothing but zeros in front of it. A numeral that is padded denotes the same number.
pub proof fn padding_is_zeros_in_front(s: Seq<char>, width: nat)
    ensures
        ({
            let padded = crate::common::text::zero_padded(s, width);
            let more = padded.len() - s.len();
            &&& padded.len() >= width
            &&& padded.len() == width || padded.len() == s.len()
            &&& more >= 0
            &&& padded.skip(more) == s
            &&& forall|i: int| 0 <= i < more ==> #[trigger] padded[i] == '0'
            &&& crate::common::text::number(padded) == crate::common::text::number(s)
        }),
{
    let padded = crate::common::text::zero_padded(s, width);
    let more = padded.len() - s.len();
    assert(padded.skip(more) =~= s);
    let zeros = padded.take(more);
    assert(padded =~= zeros + s);
    zeros_denote_zero(zeros);
    front_digits_count_more(zeros, s);
    assert(0 * vstd::arithmetic::power::pow(10, s.len()) == 0) by (nonlinear_arith);
}

proof fn zeros_denote_zero(s: Seq<char>)
    requires
        forall|i: int| 0 <= i < s.len() ==> #[trigger] s[i] == '0',
    ensures
        crate::common::text::number(s) == 0,
    decreases s.len(),
{
    if s.len() > 0 {
        zeros_denote_zero(s.drop_last());
        assert(s.last() == s[s.len() - 1]);
    }
}

/// The digits of a text are those of its parts, one after the other; of digits they are all, and of
/// text without digits there are none.
pub proof fn digits_are_picked_in_order(a: Seq<char>, b: Seq<char>)
    ensures
        crate::common::text::digits_of(a + b) == crate::common::text::digits_of(a)
            + crate::common::text::digits_of(b),
        (forall|i: int| 0 <= i < a.len() ==> 48 <= (#[trigger] a[i]) as int <= 57)
            ==> crate::common::text::digits_of(a) == a,
        (forall|i: int| 0 <= i < a.len() ==> !(48 <= (#[trigger] a[i]) as int <= 57))
            ==> crate::common::text::digits_of(a).len() == 0,
    decreases b.len(), a.len(),
{
    reveal(Seq::filter);
    if b.len() > 0 {
        let front = b.drop_last();
        digits_are_picked_in_order(a, front);
        assert((a + b).drop_last() =~= a + front);
        let c = b.last();
        assert((a + b).last() == c);
        let here = crate::common::text::digits_of(a);
        let there = crate::common::text::digits_of(front);
        assert((here + there).push(c) =~= here + there.push(c));
    } else {
        assert(a + b =~= a);
        assert(crate::common::text::digits_of(b) =~= Seq::<char>::empty());
        assert(crate::common::text::digits_of(a) + crate::common::text::digits_of(b)
            =~= crate::common::text::digits_of(a));
        if a.len() > 0 {
            let front = a.drop_last();
            digits_are_picked_in_order(front, b);
            assert(a =~= front.push(a.last()));
        }
    }
}

/// A run of digits is read as the number that it denotes exactly when there is a digit and the number
/// fits.
pub proof fn runs_of_digits_are_read(s: Seq<char>)
    ensures
        crate::common::text::parsed(s) is Some <==> s.len() > 0 && crate::common::text::number(s)
            < 0x1_0000_0000_0000_0000,
        crate::common::text::parsed(s) matches Some(n) ==> n == crate::common::text::number(s),
{
}

/// What is read of a numeral is the number that it was written for.
pub proof fn written_number_is_read_back(n: u64, width: nat)
    ensures
        crate::common::text::parsed(
            crate::common::text::zero_padded(crate::common::text::decimal(n as nat), width),
        ) == Some(n),
{
    crate::common::text::numeral_denotes_its_number(n as nat);
    padding_is_zeros_in_front(crate::common::text::decimal(n as nat), width);
}

/// The workspace that was the `n`-th to be made is written with that number. The one that none has is
/// written as such.
pub proof fn made_workspace_is_written_with_its_number(n: nat, number: u64)
    requires
        0 < n < u32::MAX,
        number == crate::model::ids::made_number(n),
    ensures
        crate::model::ids::key_debug_text(number) == "VirtualWorkspaceId("@
            + crate::common::text::decimal(n) + "v1)"@,
        crate::model::ids::key_debug_text(0x1_ffff_ffff) == "VirtualWorkspaceId(null)"@,
        crate::model::ids::is_key_number(number),
{
    reveal_strlit("v");
    reveal_strlit(")");
    reveal_strlit("v1)");
    reveal_strlit("null");
    reveal_strlit("VirtualWorkspaceId(");
    reveal_strlit("VirtualWorkspaceId(null)");
    assert(number % 0x1_0000_0000 == n);
    assert(number / 0x1_0000_0000 == 1);
    assert(crate::common::text::decimal(1) =~= seq!['1']);
    assert(crate::model::ids::key_debug_text(number) =~= "VirtualWorkspaceId("@
        + crate::common::text::decimal(n) + "v1)"@);
    assert(crate::model::ids::key_debug_text(0x1_ffff_ffff) =~= "VirtualWorkspaceId(null)"@);
}

/// The text between the parts of a key's text that hold no digits gives the digits.
proof fn digits_of_a_made_workspace(n: nat)
    ensures
        ({
            let digits = crate::common::text::digits_of(
                "VirtualWorkspaceId("@ + crate::common::text::decimal(n) + "v1)"@,
            );
            &&& digits.len() > 0
            &&& crate::common::text::number(digits) == 10 * n + 1
        }),
{
    let front = "VirtualWorkspaceId("@;
    let back = "v1)"@;
    let middle = crate::common::text::decimal(n);
    assert(crate::common::text::digits_of(front).len() == 0) by {
        reveal_strlit("VirtualWorkspaceId(");
        digits_are_picked_in_order(front, front);
    }
    assert(crate::common::text::digits_of(back) == seq!['1']) by {
        reveal_strlit("v1)");
        assert(back =~= seq!['v'] + seq!['1'] + seq![')']);
        digits_are_picked_in_order(seq!['v'] + seq!['1'], seq![')']);
        digits_are_picked_in_order(seq!['v'], seq!['1']);
        digits_are_picked_in_order(seq!['1'], seq!['v']);
        digits_are_picked_in_order(seq![')'], seq!['v']);
        assert(crate::common::text::digits_of(back) =~= seq!['1']);
    }
    assert(crate::common::text::digits_of(middle) == middle) by {
        crate::common::text::numeral_denotes_its_number(n);
        digits_are_picked_in_order(middle, middle);
    }
    digits_are_picked_in_order(front + middle, back);
    digits_are_picked_in_order(front, middle);
    let digits = crate::common::text::digits_of(front + middle + back);
    assert(digits =~= middle + seq!['1']);
    crate::common::text::numeral_denotes_its_number(n);
    front_digits_count_more(middle, seq!['1']);
    digits_denote_zero_to_nine('1');
    assert(vstd::arithmetic::power::pow(10, 1) == 10) by {
        reveal(vstd::arithmetic::power::pow);
        assert(vstd::arithmetic::power::pow(10, 0) == 1);
    }
}

/// To a user the workspace that was the `n`-th to be made is shown as that number with a one behind
/// it, in at least eight digits.
pub proof fn made_workspace_is_shown_in_eight_digits(n: nat, number: u64)
    requires
        0 < n < u32::MAX,
        number == crate::model::ids::made_number(n),
    ensures
        ({
            let shown = crate::model::ids::key_display_text(number);
            &&& shown.len() >= 8
            &&& forall|i: int| 0 <= i < shown.len() ==> 48 <= (#[trigger] shown[i]) as int <= 57
            &&& shown.len() > 8 ==> shown[0] != '0'
            &&& crate::common::text::number(shown) == 10 * n + 1
            &&& crate::common::text::parsed(crate::common::text::digits_of(shown)) == Some(
                (10 * n + 1) as u64,
            )
        }),
{
    made_workspace_is_written_with_its_number(n, number);
    digits_of_a_made_workspace(n);
    let value = (10 * n + 1) as u64;
    let plain = crate::common::text::decimal(value as nat);
    let shown = crate::model::ids::key_display_text(number);
    assert(shown == crate::common::text::zero_padded(plain, 8));
    crate::common::text::numeral_denotes_its_number(value as nat);
    padding_is_zeros_in_front(plain, 8);
    numeral_has_no_leading_zero(value as nat);
    let more = shown.len() - plain.len();
    assert forall|i: int| 0 <= i < shown.len() implies 48 <= (#[trigger] shown[i]) as int <= 57 by {
        if i >= more {
            assert(shown.skip(more)[i - more] == shown[i]);
            assert(crate::common::text::is_digit(plain[i - more]));
        }
    }
    digits_are_picked_in_order(shown, Seq::empty());
    if shown.len() > 8 {
        assert(shown == plain);
    }
}

/// Workspaces that are shown alike to a user are the same.
pub proof fn made_workspaces_are_shown_differently(a: nat, b: nat, x: u64, y: u64)
    requires
        0 < a < u32::MAX,
        0 < b < u32::MAX,
        x == crate::model::ids::made_number(a),
        y == crate::model::ids::made_number(b),
        crate::model::ids::key_display_text(x) == crate::model::ids::key_display_text(y),
    ensures
        a == b,
{
    made_workspace_is_shown_in_eight_digits(a, x);
    made_workspace_is_shown_in_eight_digits(b, y);
}

/// The number of a key has an odd version in its upper half; those of made workspaces follow each
/// other from version one on.
pub proof fn key_numbers_are_versioned(number: u64, n: nat)
    ensures
        crate::model::ids::is_key_number(number) <==> (number / 0x1_0000_0000) % 2 != 0,
        crate::model::ids::made_number(n + 1) == crate::model::ids::made_number(n) + 1,
        crate::model::ids::made_number(0) == 0x1_0000_0000,
{
}

} // verus!
