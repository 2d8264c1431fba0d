use vstd::prelude::*;

verus! {

/// The decimal digit character for `d` in `0..10`.
pub open spec fn digit_char(d: int) -> char {
    (48 + d) as char
}

/// Decimal notation of a natural number, most significant digit first, no leading zeros.
pub open spec fn decimal_nat(n: nat) -> Seq<char>
    decreases n,
{
    if n < 10 {
        seq![digit_char(n as int)]
    } else {
        decimal_nat(n / 10).push(digit_char((n % 10) as int))
    }
}

/// Decimal notation of an integer, with a leading minus sign when negative.
pub open spec fn decimal(n: int) -> Seq<char> {
    if n < 0 {
        seq!['-'] + decimal_nat((-n) as nat)
    } else {
        decimal_nat(n as nat)
    }
}

fn push_digit(out: &mut String, d: u64)
    requires
        d < 10,
    ensures
        final(out)@ == old(out)@.push(digit_char(d as int)),
{
    let ghost before = out@;
    if d == 0 {
        proof { reveal_strlit("0"); }
        out.append("0");
    } else if d == 1 {
        proof { reveal_strlit("1"); }
        out.append("1");
    } else if d == 2 {
        proof { reveal_strlit("2"); }
        out.append("2");
    } else if d == 3 {
        proof { reveal_strlit("3"); }
        out.append("3");
    } else if d == 4 {
        proof { reveal_strlit("4"); }
        out.append("4");
    } else if d == 5 {
        proof { reveal_strlit("5"); }
        out.append("5");
    } else if d == 6 {
        proof { reveal_strlit("6"); }
        out.append("6");
    } else if d == 7 {
        proof { reveal_strlit("7"); }
        out.append("7");
    } else if d == 8 {
        proof { reveal_strlit("8"); }
        out.append("8");
    } else {
        proof { reveal_strlit("9"); }
        out.append("9");
    }
    assert(out@ =~= before.push(digit_char(d as int)));
}

/// Appends the decimal notation of `n`.
pub fn append_nat(out: &mut String, n: u64)
    ensures
        final(out)@ == old(out)@ + decimal_nat(n as nat),
    decreases n,
{
    if n >= 10 {
        append_nat(out, n / 10);
    }
    push_digit(out, n % 10);
    proof {
        if n >= 10 {
            assert(old(out)@ + decimal_nat(n as nat) =~= (old(out)@ + decimal_nat((n / 10) as nat)).push(digit_char((n % 10) as int)));
        } else {
            assert(old(out)@ + decimal_nat(n as nat) =~= old(out)@.push(digit_char((n % 10) as int)));
        }
    }
}

/// Appends the decimal notation of `n`, with a minus sign when negative.
pub fn append_int(out: &mut String, n: i64)
    ensures
        final(out)@ == old(out)@ + decimal(n as int),
{
    if n < 0 {
        proof { reveal_strlit("-"); }
        out.append("-");
        let m: u64 = if n == i64::MIN { 9223372036854775808u64 } else { (-n) as u64 };
        let ghost mid = out@;
        append_nat(out, m);
        assert(out@ =~= old(out)@ + decimal(n as int));
    } else {
        append_nat(out, n as u64);
    }
}

/// Appends the decimal notation of a count.
pub fn append_count(out: &mut String, n: usize)
    ensures
        final(out)@ == old(out)@ + decimal(n as int),
{
    append_nat(out, n as u64);
}

/// The string `prefix`, then the decimal notation of `n`, then `suffix`.
pub fn int_between(prefix: &str, n: i64, suffix: &str) -> (s: String)
    ensures
        s@ == prefix@ + decimal(n as int) + suffix@,
{
    let mut s = String::from_str(prefix);
    append_int(&mut s, n);
    s.append(suffix);
    s
}

} // verus!
