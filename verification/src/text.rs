use vstd::prelude::*;

verus! {

/// The characters of a string, in order.
pub fn chars_of(s: &str) -> (r: Vec<char>)
    ensures
        r@ == s@,
{
    let n = s.unicode_len();
    let mut r: Vec<char> = Vec::new();
    for i in 0..n
        invariant
            n == s@.len(),
            r@ == s@.take(i as int),
    {
        r.push(s.get_char(i));
        proof {
            assert(s@.take(i + 1) =~= s@.take(i as int).push(s@[i as int]));
        }
    }
    proof {
        assert(s@.take(n as int) =~= s@);
    }
    r
}

pub open spec fn digit_char(d: int) -> char {
    "0123456789"@[d]
}

/// Decimal digits of `n`, without leading zeros.
pub open spec fn decimal(n: nat) -> Seq<char>
    decreases n,
{
    if n < 10 {
        seq![digit_char(n as int)]
    } else {
        decimal(n / 10).push(digit_char((n % 10) as int))
    }
}

/// Appends the decimal digit `d`.
fn push_digit(out: &mut String, d: u64)
    requires
        d < 10,
    ensures
        final(out)@ == old(out)@.push(digit_char(d as int)),
{
    let digits = "0123456789";
    proof {
        reveal_strlit("0123456789");
    }
    let s = digits.substring_char(d as usize, d as usize + 1);
    out.append(s);
    proof {
        assert(s@ =~= seq![digit_char(d as int)]);
    }
}

/// Appends the decimal representation of `n`.
pub fn push_decimal(out: &mut String, n: u64)
    ensures
        final(out)@ == old(out)@ + decimal(n as nat),
    decreases n,
{
    if n >= 10 {
        push_decimal(out, n / 10);
    }
    push_digit(out, n % 10);
    proof {
        if n < 10 {
            assert(n % 10 == n);
        }
    }
}

/// Three digits, zero padded, of a number below a thousand.
pub open spec fn three_digits(m: nat) -> Seq<char> {
    seq![digit_char((m / 100) as int), digit_char(((m / 10) % 10) as int), digit_char((m % 10) as int)]
}

/// A millisecond time written as seconds with three decimals, e.g. 12345 as "12.345".
pub open spec fn seconds_text(ms: u64) -> Seq<char> {
    decimal((ms / 1000) as nat) + seq!['.'] + three_digits((ms % 1000) as nat)
}

/// Appends `ms` as seconds with three decimals.
pub fn push_seconds(out: &mut String, ms: u64)
    ensures
        final(out)@ == old(out)@ + seconds_text(ms),
{
    push_decimal(out, ms / 1000);
    out.append(".");
    let m = ms % 1000;
    push_digit(out, m / 100);
    push_digit(out, (m / 10) % 10);
    push_digit(out, m % 10);
    proof {
        reveal_strlit(".");
        assert(final(out)@ =~= old(out)@ + seconds_text(ms));
    }
}

/// `s` with every single quote replaced by the shell-style escape `'\''`.
pub open spec fn escape_quotes(s: Seq<char>) -> Seq<char>
    decreases s.len(),
{
    if s.len() == 0 {
        seq![]
    } else {
        escape_quotes(s.drop_last()) + if s.last() == '\'' {
            seq!['\'', '\\', '\'', '\'']
        } else {
            seq![s.last()]
        }
    }
}

/// Appends `s` with its single quotes escaped.
pub fn push_escaped(out: &mut String, s: &str)
    ensures
        final(out)@ == old(out)@ + escape_quotes(s@),
{
    let ghost start = out@;
    let n = s.unicode_len();
    for i in 0..n
        invariant
            n == s@.len(),
            out@ == start + escape_quotes(s@.take(i as int)),
    {
        let c = s.get_char(i);
        proof {
            assert(s@.take(i + 1).drop_last() =~= s@.take(i as int));
            assert(s@.take(i + 1).last() == c);
        }
        if c == '\'' {
            out.append("'\\''");
            proof {
                reveal_strlit("'\\''");
                assert(out@ =~= start + escape_quotes(s@.take(i + 1)));
            }
        } else {
            let one = s.substring_char(i, i + 1);
            out.append(one);
            proof {
                assert(one@ =~= seq![c]);
                assert(out@ =~= start + escape_quotes(s@.take(i + 1)));
            }
        }
    }
    proof {
        assert(s@.take(n as int) =~= s@);
    }
}

} // verus!

verus! {

/// Whether two strings hold the same characters.
pub fn str_equal(a: &str, b: &str) -> (r: bool)
    ensures
        r == (a@ == b@),
{
    let n = a.unicode_len();
    let m = b.unicode_len();
    if n != m {
        return false;
    }
    for i in 0..n
        invariant
            n == a@.len(),
            m == b@.len(),
            n == m,
            forall|j: int| 0 <= j < i ==> a@[j] == b@[j],
    {
        if a.get_char(i) != b.get_char(i) {
            return false;
        }
    }
    proof {
        assert(a@ =~= b@);
    }
    true
}

} // verus!
