use vstd::prelude::*;

verus! {

/// Database used when `DATABASE_URL` is not set.
pub const DATABASE_URL: &'static str = "sqlite://podcast.db";

/// Speech-to-text service used when `WHISPER_BASE_URL` is not set.
pub const DEFAULT_WHISPER_URL: &'static str = "http://whisper_sidecar:8000/v1";

/// Download directory used when `BASE_DOWNLOAD_PATH` is not set.
pub const BASE_DOWNLOAD_PATH: &'static str = "./downloads";

/// Download queue length used when `DOWNLOAD_QUEUE` is not set or not a number.
pub const DEFAULT_BUFFER_QUEUE: usize = 100;

pub open spec fn is_digit(c: char) -> bool {
    '0' <= c && c <= '9'
}

pub open spec fn all_digits(d: Seq<char>) -> bool {
    forall|i: int| 0 <= i < d.len() ==> is_digit(#[trigger] d[i])
}

/// Value of a run of decimal digits.
pub open spec fn digits_value(s: Seq<char>) -> nat
    decreases s.len(),
{
    if s.len() == 0 {
        0
    } else {
        digits_value(s.drop_last()) * 10 + (s.last() as nat - '0' as nat) as nat
    }
}

/// What `str::parse::<usize>` accepts: an optional `+`, then one or more decimal digits
/// whose value fits in `usize`.
pub open spec fn parsed_usize(s: Seq<char>) -> Option<usize> {
    let d = if s.len() > 0 && s[0] == '+' {
        s.drop_first()
    } else {
        s
    };
    if d.len() > 0 && all_digits(d) && digits_value(d) <= usize::MAX {
        Some(digits_value(d) as usize)
    } else {
        None
    }
}

proof fn lemma_digits_value_grows(s: Seq<char>, c: char)
    requires
        is_digit(c),
    ensures
        digits_value(s.push(c)) >= digits_value(s),
{
    assert(s.push(c).drop_last() =~= s);
}

proof fn lemma_overflow_persists(d: Seq<char>, k: int)
    requires
        0 <= k <= d.len(),
        digits_value(d.take(k)) > usize::MAX,
    ensures
        digits_value(d) > usize::MAX || exists|i: int| 0 <= i < d.len() && !is_digit(#[trigger] d[i]),
    decreases d.len() - k,
{
    if k == d.len() {
        assert(d.take(k) =~= d);
    } else if is_digit(d[k]) {
        assert(d.take(k + 1) =~= d.take(k).push(d[k]));
        lemma_digits_value_grows(d.take(k), d[k]);
        lemma_overflow_persists(d, k + 1);
    } else {
        assert(!is_digit(d[k]));
    }
}

/// Reads a decimal `usize` as `str::parse::<usize>` does.
pub fn parse_usize(s: &str) -> (r: Option<usize>)
    ensures
        r == parsed_usize(s@),
{
    let n = s.unicode_len();
    let skip: usize = if n > 0 && s.get_char(0) == '+' {
        1
    } else {
        0
    };
    let ghost d = if s@.len() > 0 && s@[0] == '+' {
        s@.drop_first()
    } else {
        s@
    };
    proof {
        assert(d =~= s@.skip(skip as int));
    }
    if skip >= n {
        return None;
    }
    let mut value: usize = 0;
    let mut i = skip;
    while i < n
        invariant
            skip <= i <= n,
            n == s@.len(),
            d =~= s@.skip(skip as int),
            d == (if s@.len() > 0 && s@[0] == '+' {
                s@.drop_first()
            } else {
                s@
            }),
            forall|k: int| 0 <= k < i - skip ==> is_digit(#[trigger] d[k]),
            value == digits_value(d.take(i - skip)),
        decreases n - i,
    {
        let c = s.get_char(i);
        proof {
            assert(d[i - skip] == c);
            assert(d.take(i - skip + 1) =~= d.take(i - skip).push(c));
        }
        if !('0' <= c && c <= '9') {
            proof {
                assert(!is_digit(d[i - skip]));
                assert(!(forall|k: int| 0 <= k < d.len() ==> is_digit(#[trigger] d[k])));
                assert(parsed_usize(s@) is None);
            }
            return None;
        }
        let digit = (c as u32 - '0' as u32) as usize;
        proof {
            let t = d.take(i - skip + 1);
            assert(t.drop_last() =~= d.take(i - skip));
            assert(t.last() == c);
            assert(digits_value(t) == value * 10 + digit);
        }
        if value > (usize::MAX - digit) / 10 {
            proof {
                assert(digits_value(d.take(i - skip + 1)) > usize::MAX) by (nonlinear_arith)
                    requires
                        value > (usize::MAX - digit) / 10,
                        digits_value(d.take(i - skip + 1)) == value * 10 + digit,
                        digit <= 9,
                ;
                lemma_overflow_persists(d, i - skip + 1);
                if digits_value(d) <= usize::MAX {
                    let k = choose|k: int| 0 <= k < d.len() && !is_digit(#[trigger] d[k]);
                    assert(!(forall|k: int| 0 <= k < d.len() ==> is_digit(#[trigger] d[k])));
                }
                assert(parsed_usize(s@) is None);
            }
            return None;
        }
        value = value * 10 + digit;
        i = i + 1;
    }
    proof {
        assert(d.take(n - skip) =~= d);
    }
    Some(value)
}

/// The download queue length: `DOWNLOAD_QUEUE` when it holds a number, else the default.
pub fn download_queue_size(setting: Option<&str>) -> (n: usize)
    ensures
        n == (match setting {
            Some(s) => match parsed_usize(s@) {
                Some(v) => v,
                None => DEFAULT_BUFFER_QUEUE,
            },
            None => DEFAULT_BUFFER_QUEUE,
        }),
{
    match setting {
        Some(s) => match parse_usize(s) {
            Some(v) => v,
            None => DEFAULT_BUFFER_QUEUE,
        },
        None => DEFAULT_BUFFER_QUEUE,
    }
}

/// A setting's value, or its default when it is not set.
pub fn setting_or(setting: Option<String>, default: &str) -> (r: String)
    ensures
        r@ == (match setting {
            Some(s) => s@,
            None => default@,
        }),
{
    match setting {
        Some(s) => s,
        None => String::from_str(default),
    }
}

} // verus!
