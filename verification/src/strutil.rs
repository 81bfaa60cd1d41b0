//! Small verified string helpers: decimal formatting and joining.

use vstd::prelude::*;

verus! {

/// Relies on `String::push`: appends exactly the one character.
#[verifier::external_body]
pub fn push_char(s: &mut String, c: char)
    ensures
        final(s)@ == old(s)@ + seq![c],
{
    s.push(c);
}

/// The decimal digit character for a value below ten.
pub open spec fn dec_digit_char(d: int) -> char {
    if d == 0 {
        '0'
    } else if d == 1 {
        '1'
    } else if d == 2 {
        '2'
    } else if d == 3 {
        '3'
    } else if d == 4 {
        '4'
    } else if d == 5 {
        '5'
    } else if d == 6 {
        '6'
    } else if d == 7 {
        '7'
    } else if d == 8 {
        '8'
    } else {
        '9'
    }
}

/// The decimal representation of a non-negative number, most significant
/// digit first, without leading zeroes (a lone zero for zero).
pub open spec fn spec_dec_string(n: int) -> Seq<char>
    decreases n,
{
    if n < 10 {
        seq![dec_digit_char(n)]
    } else {
        spec_dec_string(n / 10) + seq![dec_digit_char(n % 10)]
    }
}

/// The decimal representation of a signed number: a minus sign before
/// the digits of its magnitude when negative.
pub open spec fn spec_int_string(v: int) -> Seq<char> {
    if v < 0 {
        seq!['-'] + spec_dec_string(-v)
    } else {
        spec_dec_string(v)
    }
}

/// The digit character of a value below ten, executable.
fn dec_digit_char_exec(d: u64) -> (c: char)
    requires
        d < 10,
    ensures
        c == dec_digit_char(d as int),
{
    match d {
        0u64 => '0',
        1u64 => '1',
        2u64 => '2',
        3u64 => '3',
        4u64 => '4',
        5u64 => '5',
        6u64 => '6',
        7u64 => '7',
        8u64 => '8',
        _ => '9',
    }
}

/// Formats an unsigned number in decimal.
pub fn u64_to_string(n: u64) -> (r: String)
    ensures
        r@ == spec_dec_string(n as int),
    decreases n,
{
    if n < 10 {
        let mut s = String::new();
        push_char(&mut s, dec_digit_char_exec(n));
        assert(s@ =~= spec_dec_string(n as int));
        s
    } else {
        let mut s = u64_to_string(n / 10);
        push_char(&mut s, dec_digit_char_exec(n % 10));
        assert(s@ =~= spec_dec_string(n as int));
        s
    }
}

/// Formats a signed number in decimal.
pub fn i64_to_string(v: i64) -> (r: String)
    ensures
        r@ == spec_int_string(v as int),
{
    if v >= 0 {
        u64_to_string(v as u64)
    } else {
        let magnitude: u64 = (-(v as i128)) as u64;
        let mut s = String::new();
        push_char(&mut s, '-');
        let digits = u64_to_string(magnitude);
        s.append(digits.as_str());
        assert(s@ =~= spec_int_string(v as int));
        s
    }
}

/// Formats a 32-bit unsigned number in decimal.
pub fn u32_to_string(n: u32) -> (r: String)
    ensures
        r@ == spec_dec_string(n as int),
{
    u64_to_string(n as u64)
}

/// The items joined with the separator between each adjacent pair.
pub open spec fn spec_join(items: Seq<Seq<char>>, sep: Seq<char>) -> Seq<char>
    decreases items.len(),
{
    if items.len() == 0 {
        Seq::<char>::empty()
    } else if items.len() == 1 {
        items[0]
    } else {
        spec_join(items.drop_last(), sep) + sep + items.last()
    }
}

/// Joins the strings with the separator between each adjacent pair.
pub fn join_strings(items: &Vec<String>, sep: &str) -> (r: String)
    ensures
        r@ == spec_join(items@.map_values(|s: String| s@), sep@),
{
    let ghost views = items@.map_values(|s: String| s@);
    let mut acc = String::new();
    if items.len() == 0 {
        assert(acc@ =~= spec_join(views, sep@));
        return acc;
    }
    let mut k: usize = 0;
    while k < items.len()
        invariant
            k <= items@.len(),
            views == items@.map_values(|s: String| s@),
            k == 0 ==> acc@ == Seq::<char>::empty(),
            k > 0 ==> acc@ == spec_join(views.take(k as int), sep@),
        decreases items@.len() - k,
    {
        if k == 0 {
            acc.append(items[k].as_str());
            assert(views.take(1)[0] == views[0]);
            assert(acc@ =~= spec_join(views.take(1), sep@));
        } else {
            acc.append(sep);
            acc.append(items[k].as_str());
            proof {
                let t = views.take(k as int + 1);
                assert(t.drop_last() =~= views.take(k as int));
                assert(t.last() == views[k as int]);
            }
            assert(acc@ =~= spec_join(views.take(k as int + 1), sep@));
        }
        k = k + 1;
    }
    proof {
        assert(views.take(views.len() as int) =~= views);
    }
    acc
}

} // verus!
