use vstd::prelude::*;
use vstd::string::StringExecFns;

verus! {

/// The character for one decimal digit.
pub open spec fn spec_digit(d: nat) -> char {
    if d == 0 {
        '0'
    } else if d == 1 {
        '1'
    } else if d == 2 {
        '2'
    } else if d == 3 {
        '3'
    } else if d == 4 {
        '4'
    } else if d == 5 {
        '5'
    } else if d == 6 {
        '6'
    } else if d == 7 {
        '7'
    } else if d == 8 {
        '8'
    } else {
        '9'
    }
}

/// The decimal digits of `n`, most significant first, with no sign and no
/// leading zero except for `n == 0` itself.
pub open spec fn spec_dec(n: nat) -> Seq<char>
    decreases n,
{
    if n < 10 {
        seq![spec_digit(n)]
    } else {
        spec_dec(n / 10).push(spec_digit(n % 10))
    }
}

/// `n` spaces.
pub open spec fn spec_spaces(n: nat) -> Seq<char>
    decreases n,
{
    if n == 0 {
        Seq::empty()
    } else {
        spec_spaces((n - 1) as nat).push(' ')
    }
}

/// The indentation of a report line printed at nesting level `n`: one
/// four-space step per level, plus one leading step.
pub open spec fn spec_indent(n: nat) -> Seq<char>
    decreases n,
{
    if n == 0 {
        Seq::empty()
    } else {
        spec_indent((n - 1) as nat) + seq![' ', ' ', ' ', ' ']
    }
}

/// The decimal digits of `n` padded on the left with spaces to at least six
/// characters, as the report column for a millisecond count.
pub open spec fn spec_padded(n: nat) -> Seq<char> {
    if spec_dec(n).len() >= 6 {
        spec_dec(n)
    } else {
        spec_spaces((6 - spec_dec(n).len()) as nat) + spec_dec(n)
    }
}

/// The one-character string for the decimal digit `d`.
fn digit_str(d: u64) -> (s: &'static str)
    requires
        d < 10,
    ensures
        s@ == seq![spec_digit(d as nat)],
{
    proof {
        reveal_strlit("0");
        reveal_strlit("1");
        reveal_strlit("2");
        reveal_strlit("3");
        reveal_strlit("4");
        reveal_strlit("5");
        reveal_strlit("6");
        reveal_strlit("7");
        reveal_strlit("8");
        reveal_strlit("9");
    }
    let s: &'static str = if d == 0 {
        "0"
    } else if d == 1 {
        "1"
    } else if d == 2 {
        "2"
    } else if d == 3 {
        "3"
    } else if d == 4 {
        "4"
    } else if d == 5 {
        "5"
    } else if d == 6 {
        "6"
    } else if d == 7 {
        "7"
    } else if d == 8 {
        "8"
    } else {
        "9"
    };
    proof {
        assert(s@ =~= seq![spec_digit(d as nat)]);
    }
    s
}

/// Appends the decimal digits of `n` to `out`.
pub fn push_u64(out: &mut String, n: u64)
    ensures
        final(out)@ == old(out)@ + spec_dec(n as nat),
    decreases n,
{
    if n >= 10 {
        push_u64(out, n / 10);
        out.append(digit_str(n % 10));
        proof {
            assert(out@ =~= old(out)@ + spec_dec(n as nat));
        }
    } else {
        out.append(digit_str(n));
        proof {
            assert(out@ =~= old(out)@ + spec_dec(n as nat));
        }
    }
}

/// Appends `n` spaces to `out`.
pub fn push_spaces(out: &mut String, n: usize)
    ensures
        final(out)@ == old(out)@ + spec_spaces(n as nat),
{
    let mut i: usize = 0;
    while i < n
        invariant
            i <= n,
            out@ == old(out)@ + spec_spaces(i as nat),
        decreases n - i,
    {
        out.append(" ");
        i = i + 1;
        proof {
            reveal_strlit(" ");
            assert(out@ =~= old(out)@ + spec_spaces(i as nat));
        }
    }
}

/// Appends the indentation for nesting level `n` to `out`.
pub fn push_indent(out: &mut String, n: usize)
    ensures
        final(out)@ == old(out)@ + spec_indent(n as nat),
{
    let mut i: usize = 0;
    while i < n
        invariant
            i <= n,
            out@ == old(out)@ + spec_indent(i as nat),
        decreases n - i,
    {
        out.append("    ");
        i = i + 1;
        proof {
            reveal_strlit("    ");
            assert(out@ =~= old(out)@ + spec_indent(i as nat));
        }
    }
}

/// Appends the six-column, space-padded decimal form of `n` to `out`.
pub fn push_padded_u64(out: &mut String, n: u64)
    ensures
        final(out)@ == old(out)@ + spec_padded(n as nat),
{
    proof {
        lemma_dec_len_bound(n as nat);
    }
    let mut m: u64 = n;
    let mut len: usize = 1;
    while m >= 10
        invariant
            n <= u64::MAX,
            spec_dec(n as nat).len() == spec_dec(m as nat).len() + len - 1,
            spec_dec(n as nat).len() <= 20,
            len >= 1,
        decreases m,
    {
        m = m / 10;
        len = len + 1;
    }
    assert(spec_dec(n as nat).len() == len);
    if len < 6 {
        push_spaces(out, 6 - len);
    }
    push_u64(out, n);
    proof {
        assert(out@ =~= old(out)@ + spec_padded(n as nat));
    }
}

/// Ten raised to `k`.
spec fn pow10(k: nat) -> nat
    decreases k,
{
    if k == 0 {
        1
    } else {
        10 * pow10((k - 1) as nat)
    }
}

/// A number below the `k`-th power of ten has at most `k` decimal digits.
proof fn lemma_dec_len_below(n: nat, k: nat)
    requires
        1 <= k,
        n < pow10(k),
    ensures
        spec_dec(n).len() <= k,
    decreases n,
{
    if n >= 10 {
        assert(pow10(k) == 10 * pow10((k - 1) as nat));
        if k == 1 {
            assert(pow10((k - 1) as nat) == 1);
        }
        vstd::arithmetic::div_mod::lemma_multiply_divide_lt(
            n as int,
            10,
            pow10((k - 1) as nat) as int,
        );
        lemma_dec_len_below(n / 10, (k - 1) as nat);
    }
}

/// A 64-bit number has at most twenty decimal digits.
proof fn lemma_dec_len_bound(n: nat)
    requires
        n <= u64::MAX,
    ensures
        spec_dec(n).len() <= 20,
{
    assert(pow10(20) > u64::MAX) by {
        reveal_with_fuel(pow10, 21);
    }
    lemma_dec_len_below(n, 20);
}

} // verus!
