use vstd::prelude::*;
use vstd::string::StrSliceExecFns;

verus! {

/// Whether `s` is a run of one or more decimal digits.
pub open spec fn spec_all_digits(s: Seq<char>) -> bool {
    s.len() >= 1 && forall|k: int| 0 <= k < s.len() ==> 48 <= (#[trigger] s[k]) as u32 <= 57
}

/// The number a run of decimal digits denotes, most significant first.
pub open spec fn spec_digits_val(s: Seq<char>) -> int
    decreases s.len(),
{
    if s.len() == 0 {
        0
    } else {
        spec_digits_val(s.drop_last()) * 10 + (s.last() as u32 - 48)
    }
}

/// The digits of the configuration text: everything after an optional
/// leading `+`.
pub open spec fn spec_parse_body(s: Seq<char>) -> Seq<char> {
    if s.len() >= 1 && s[0] == '+' {
        s.drop_first()
    } else {
        s
    }
}

/// How the enabled level reads from its configuration text, exactly as
/// an unsigned machine word parses: an optional leading `+`, then at
/// least one decimal digit and nothing else, denoting a value that fits;
/// anything else leaves instrumentation disabled.
pub open spec fn spec_parse_level(s: Seq<char>) -> Option<usize> {
    if spec_all_digits(spec_parse_body(s)) && spec_digits_val(spec_parse_body(s)) <= usize::MAX {
        Some(spec_digits_val(spec_parse_body(s)) as usize)
    } else {
        None
    }
}

/// Appending one digit multiplies the value by ten and adds the digit.
proof fn lemma_digits_val_push(t: Seq<char>, c: char)
    ensures
        spec_digits_val(t.push(c)) == spec_digits_val(t) * 10 + (c as u32 - 48),
{
    assert(t.push(c).drop_last() =~= t);
    assert(t.push(c).last() == c);
}

/// A digit run is worth at least any of its prefixes.
proof fn lemma_digits_val_prefix(s: Seq<char>, m: int)
    requires
        spec_all_digits(s),
        0 <= m <= s.len(),
    ensures
        spec_digits_val(s.subrange(0, m)) <= spec_digits_val(s),
        spec_digits_val(s.subrange(0, m)) >= 0,
    decreases s.len() - m,
{
    if m == s.len() {
        assert(s.subrange(0, m) =~= s);
        lemma_digits_val_nonneg(s.subrange(0, m));
    } else {
        lemma_digits_val_prefix(s, m + 1);
        assert(s.subrange(0, m + 1).drop_last() =~= s.subrange(0, m));
        lemma_digits_val_nonneg(s.subrange(0, m));
    }
}

/// A digit run never denotes a negative number.
proof fn lemma_digits_val_nonneg(s: Seq<char>)
    requires
        forall|k: int| 0 <= k < s.len() ==> 48 <= (#[trigger] s[k]) as u32 <= 57,
    ensures
        spec_digits_val(s) >= 0,
    decreases s.len(),
{
    if s.len() > 0 {
        lemma_digits_val_nonneg(s.drop_last());
    }
}

/// Parses the configured enabled level: `Some` exactly for the texts an
/// unsigned machine word accepts — an optional leading `+` and then only
/// decimal digits denoting a value that fits — and `None` for every
/// other text.
pub fn parse_level(s: &str) -> (r: Option<usize>)
    ensures
        r == spec_parse_level(s@),
{
    let ghost body: Seq<char> = spec_parse_body(s@);
    let len: usize = s.unicode_len();
    if len == 0 {
        return None;
    }
    let first: char = s.get_char(0);
    let start: usize = if first == '+' {
        1
    } else {
        0
    };
    proof {
        assert(body =~= s@.subrange(start as int, len as int));
    }
    if start >= len {
        return None;
    }
    let mut i: usize = start;
    let mut val: usize = 0;
    while i < len
        invariant
            start <= i <= len == s@.len(),
            body == spec_parse_body(s@),
            body == s@.subrange(start as int, len as int),
            spec_all_digits(s@.subrange(start as int, i as int)) || i == start,
            forall|k: int| start <= k < i ==> 48 <= (#[trigger] s@[k]) as u32 <= 57,
            val == spec_digits_val(s@.subrange(start as int, i as int)),
        decreases len - i,
    {
        let c: char = s.get_char(i);
        let cv: u32 = c as u32;
        if cv < 48 || cv > 57 {
            proof {
                assert(body[i - start] == c);
                assert(!spec_all_digits(body));
            }
            return None;
        }
        let d: usize = (cv - 48) as usize;
        proof {
            assert(s@.subrange(start as int, i + 1) =~= s@.subrange(start as int, i as int).push(
                s@[i as int],
            ));
            lemma_digits_val_push(s@.subrange(start as int, i as int), s@[i as int]);
        }
        if val > (usize::MAX - d) / 10 {
            proof {
                vstd::arithmetic::div_mod::lemma_fundamental_div_mod(
                    (usize::MAX - d) as int,
                    10,
                );
                assert(val * 10 + d > usize::MAX);
                if spec_all_digits(body) {
                    lemma_digits_val_prefix(body, i + 1 - start);
                    assert(body.subrange(0, i + 1 - start) =~= s@.subrange(
                        start as int,
                        i + 1,
                    ));
                    assert(spec_digits_val(body) > usize::MAX);
                }
            }
            return None;
        }
        proof {
            vstd::arithmetic::div_mod::lemma_fundamental_div_mod((usize::MAX - d) as int, 10);
        }
        val = val * 10 + d;
        i = i + 1;
    }
    proof {
        assert(s@.subrange(start as int, i as int) =~= body);
    }
    Some(val)
}

} // verus!
