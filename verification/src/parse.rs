use vstd::prelude::*;
use vstd::string::StringSliceAdditionalSpecFns;

verus! {

// Byte values the grammar speaks of.
pub const PLUS: u8 = 43;
pub const DASH: u8 = 45;
pub const SLASH: u8 = 47;
pub const ZERO: u8 = 48;
pub const NINE: u8 = 57;

/// One decimal digit, as a byte.
pub open spec fn is_digit_byte(b: u8) -> bool {
    ZERO <= b && b <= NINE
}

/// Every byte of `s` is a decimal digit.
pub open spec fn all_digits(s: Seq<u8>) -> bool {
    forall|i: int| 0 <= i < s.len() ==> is_digit_byte(#[trigger] s[i])
}

/// Numeric value of a digit string, most significant digit first.
pub open spec fn digits_value(s: Seq<u8>) -> nat
    decreases s.len(),
{
    if s.len() == 0 {
        0
    } else {
        digits_value(s.drop_last()) * 10 + (s.last() - ZERO) as nat
    }
}

/// The digits of a decimal numeral: a single leading `+` sign is allowed.
pub open spec fn numeral_digits(s: Seq<u8>) -> Seq<u8> {
    if s.len() > 0 && s[0] == PLUS {
        s.subrange(1, s.len() as int)
    } else {
        s
    }
}

/// The strings `str::parse::<u64>` accepts: an optional `+`, then at least
/// one digit, nothing else, and a value that fits in a `u64`.
pub open spec fn is_u64_numeral(s: Seq<u8>) -> bool {
    &&& numeral_digits(s).len() > 0
    &&& all_digits(numeral_digits(s))
    &&& digits_value(numeral_digits(s)) <= u64::MAX
}

/// What `str::parse::<u64>` returns on the UTF-8 bytes of its input.
pub open spec fn parse_u64_spec(s: Seq<u8>) -> Option<u64> {
    if is_u64_numeral(s) {
        Some(digits_value(numeral_digits(s)) as u64)
    } else {
        None
    }
}

/// Extending a digit string never shrinks its value.
proof fn lemma_digits_value_prefix(s: Seq<u8>, k: int)
    requires
        0 <= k <= s.len(),
    ensures
        digits_value(s) >= digits_value(s.subrange(0, k)),
    decreases s.len() - k,
{
    if k < s.len() {
        let t = s.drop_last();
        assert(t.subrange(0, k) =~= s.subrange(0, k));
        lemma_digits_value_prefix(t, k);
        assert(digits_value(t) * 10 >= digits_value(t)) by (nonlinear_arith);
    } else {
        assert(s.subrange(0, k) =~= s);
    }
}

/// Parses the decimal value of `s`, exactly as `str::parse::<u64>` does.
pub fn parse_u64_bytes(s: &[u8]) -> (r: Option<u64>)
    ensures
        r == parse_u64_spec(s@),
{
    let n = s.len();
    let mut i: usize = 0;
    if n > 0 && s[0] == PLUS {
        i = 1;
    }
    let ghost digits = numeral_digits(s@);
    proof {
        assert(digits =~= s@.subrange(i as int, n as int));
    }
    if i >= n {
        return None;
    }
    let start = i;
    let mut acc: u64 = 0;
    while i < n
        invariant
            start <= i <= n,
            n == s@.len(),
            digits == numeral_digits(s@),
            digits =~= s@.subrange(start as int, n as int),
            all_digits(digits.subrange(0, i - start)),
            acc == digits_value(digits.subrange(0, i - start)),
        decreases n - i,
    {
        let b = s[i];
        assert(digits[i - start] == b);
        if b < ZERO || b > NINE {
            assert(!all_digits(digits));
            return None;
        }
        let d = (b - ZERO) as u64;
        let ghost pre = digits.subrange(0, i - start);
        let ghost ext = digits.subrange(0, i + 1 - start);
        proof {
            assert(ext.drop_last() =~= pre);
            assert(ext.last() == b);
            assert(digits_value(ext) == acc * 10 + d);
        }
        if acc > 1844674407370955161u64 || (acc == 1844674407370955161u64 && d > 5) {
            proof {
                assert(acc * 10 + d > u64::MAX) by (nonlinear_arith)
                    requires
                        acc > 1844674407370955161u64 || (acc == 1844674407370955161u64 && d > 5),
                        d <= 9,
                ;
                lemma_digits_value_prefix(digits, i + 1 - start);
            }
            return None;
        }
        proof {
            assert(acc * 10 + d <= u64::MAX) by (nonlinear_arith)
                requires
                    acc < 1844674407370955161u64 || (acc == 1844674407370955161u64 && d <= 5),
                    d <= 9,
            ;
        }
        acc = acc * 10 + d;
        i = i + 1;
    }
    proof {
        assert(digits.subrange(0, i - start) =~= digits);
    }
    Some(acc)
}

/// Drops every leading repetition of the literal prefix `bytes=`, as
/// `str::trim_start_matches("bytes=")` does.
pub open spec fn strip_bytes_prefix(s: Seq<u8>) -> Seq<u8>
    decreases s.len(),
{
    if s.len() >= 6 && s.subrange(0, 6) == bytes_prefix() {
        strip_bytes_prefix(s.subrange(6, s.len() as int))
    } else {
        s
    }
}

/// The UTF-8 bytes of the literal `bytes=`.
pub open spec fn bytes_prefix() -> Seq<u8> {
    seq![98u8, 121u8, 116u8, 101u8, 115u8, 61u8]
}

/// The requested range of a `Range` header value: the value with every
/// leading `bytes=` removed is split at `-`; the first two pieces must both
/// be `u64` numerals, and further pieces are ignored.
pub open spec fn parse_range_spec(s: Seq<u8>) -> Option<(u64, u64)> {
    let t = strip_bytes_prefix(s);
    match t.index_of_first(DASH) {
        None => None,
        Some(d1) => {
            let first = t.subrange(0, d1);
            let rest = t.subrange(d1 + 1, t.len() as int);
            let second = match rest.index_of_first(DASH) {
                None => rest,
                Some(d2) => rest.subrange(0, d2),
            };
            match (parse_u64_spec(first), parse_u64_spec(second)) {
                (Some(a), Some(b)) => Some((a, b)),
                _ => None,
            }
        },
    }
}

/// Least index of `needle` in `s` at or after `from`, if any.
fn find_byte(s: &[u8], from: usize, needle: u8) -> (r: Option<usize>)
    requires
        from <= s@.len(),
    ensures
        match r {
            Some(j) => from <= j < s@.len() && s@[j as int] == needle && forall|k: int|
                from <= k < j ==> s@[k] != needle,
            None => forall|k: int| from <= k < s@.len() ==> s@[k] != needle,
        },
{
    let n = s.len();
    let mut i = from;
    while i < n
        invariant
            from <= i <= n,
            n == s@.len(),
            forall|k: int| from <= k < i ==> s@[k] != needle,
        decreases n - i,
    {
        if s[i] == needle {
            return Some(i);
        }
        i = i + 1;
    }
    None
}

/// Relates an exec-found least occurrence to `index_of_first`.
proof fn lemma_index_of_first_agrees(s: Seq<u8>, needle: u8, r: Option<int>)
    requires
        match r {
            Some(j) => 0 <= j < s.len() && s[j] == needle && forall|k: int|
                0 <= k < j ==> s[k] != needle,
            None => forall|k: int| 0 <= k < s.len() ==> s[k] != needle,
        },
    ensures
        s.index_of_first(needle) == r,
{
    s.index_of_first_ensures(needle);
    match s.index_of_first(needle) {
        Some(found) => {
            match r {
                Some(j) => {
                    if found < j {
                        assert(s[found] == needle);
                        assert(false);
                    }
                    if j < found {
                        assert(s[j] != needle);
                        assert(false);
                    }
                },
                None => {
                    assert(s[found] != needle);
                    assert(false);
                },
            }
        },
        None => {
            match r {
                Some(j) => {
                    assert(!s.contains(needle));
                    assert(s[j] == needle);
                    assert(false);
                },
                None => {},
            }
        },
    }
}

/// Parses a `Range` header value as `bytes=<start>-<end>`, returning the two
/// inclusive offsets, or nothing when the value does not take that shape.
#[verifier::rlimit(30)]
pub fn parse_range(range: &str) -> (r: Option<(u64, u64)>)
    ensures
        r == parse_range_spec(range.spec_bytes()),
{
    let s = range.as_bytes();
    let n = s.len();
    // Strip every leading "bytes=".
    let mut j: usize = 0;
    proof {
        assert(s@.subrange(0, n as int) =~= s@);
    }
    while n - j >= 6 && s[j] == 98 && s[j + 1] == 121 && s[j + 2] == 116 && s[j + 3] == 101
        && s[j + 4] == 115 && s[j + 5] == 61
        invariant
            j <= n,
            n == s@.len(),
            strip_bytes_prefix(s@) == strip_bytes_prefix(s@.subrange(j as int, n as int)),
        decreases n - j,
    {
        proof {
            let cur = s@.subrange(j as int, n as int);
            assert(cur.subrange(0, 6) =~= bytes_prefix());
            assert(cur.subrange(6, cur.len() as int) =~= s@.subrange(j + 6, n as int));
        }
        j = j + 6;
    }
    let ghost t = strip_bytes_prefix(s@);
    proof {
        let cur = s@.subrange(j as int, n as int);
        if cur.len() >= 6 {
            assert(cur.subrange(0, 6) != bytes_prefix() ==> strip_bytes_prefix(cur) == cur);
            if cur.subrange(0, 6) == bytes_prefix() {
                assert(cur[0] == 98 && cur[1] == 121 && cur[2] == 116 && cur[3] == 101
                    && cur[4] == 115 && cur[5] == 61);
                assert(false);
            }
        }
        assert(t =~= s@.subrange(j as int, n as int));
    }
    // Split at the first '-': the piece before it, and the piece up to the
    // next '-' (or the end).
    let d1 = match find_byte(s, j, DASH) {
        None => {
            proof {
                lemma_index_of_first_agrees(t, DASH, None);
            }
            return None;
        },
        Some(d) => d,
    };
    proof {
        lemma_index_of_first_agrees(t, DASH, Some(d1 - j));
    }
    let first = vstd::slice::slice_subrange(s, j, d1);
    let ghost rest = t.subrange(d1 - j + 1, t.len() as int);
    proof {
        assert(rest =~= s@.subrange(d1 + 1, n as int));
    }
    let second = match find_byte(s, d1 + 1, DASH) {
        None => {
            proof {
                lemma_index_of_first_agrees(rest, DASH, None);
            }
            vstd::slice::slice_subrange(s, d1 + 1, n)
        },
        Some(d2) => {
            proof {
                lemma_index_of_first_agrees(rest, DASH, Some(d2 - d1 - 1));
            }
            vstd::slice::slice_subrange(s, d1 + 1, d2)
        },
    };
    proof {
        assert(first@ =~= t.subrange(0, d1 - j));
        match rest.index_of_first(DASH) {
            None => {
                assert(second@ =~= rest);
            },
            Some(d2) => {
                assert(second@ =~= rest.subrange(0, d2));
            },
        }
    }
    let a = match parse_u64_bytes(first) {
        None => {
            return None;
        },
        Some(a) => a,
    };
    let b = match parse_u64_bytes(second) {
        None => {
            return None;
        },
        Some(b) => b,
    };
    Some((a, b))
}

/// The total advertised by a `Content-Range` header value: everything after
/// the last `/` (the whole value when there is no `/`), read as a `u64`.
pub open spec fn content_range_total_spec(s: Seq<u8>) -> Option<u64> {
    match s.index_of_last(SLASH) {
        None => parse_u64_spec(s),
        Some(d) => parse_u64_spec(s.subrange(d + 1, s.len() as int)),
    }
}

/// Reads the total out of a `Content-Range` header value, as
/// `value.split('/').last()` parsed as a `u64`.
pub fn parse_content_range_total(value: &str) -> (r: Option<u64>)
    ensures
        r == content_range_total_spec(value.spec_bytes()),
{
    let s = value.as_bytes();
    let n = s.len();
    // Find the last '/'.
    let mut i: usize = n;
    while i > 0
        invariant
            i <= n,
            n == s@.len(),
            s@ == value.spec_bytes(),
            forall|k: int| i <= k < n ==> s@[k] != SLASH,
        decreases i,
    {
        if s[i - 1] == SLASH {
            proof {
                s@.index_of_last_ensures(SLASH);
                if s@.index_of_last(SLASH) != Some(i - 1 as int) {
                    match s@.index_of_last(SLASH) {
                        None => {
                            assert(s@[i - 1 as int] != SLASH);
                        },
                        Some(l) => {
                            if l < i - 1 {
                                assert(s@[i - 1 as int] != SLASH);
                            } else {
                                assert(s@[l] != SLASH);
                            }
                        },
                    }
                    assert(false);
                }
            }
            let seg = vstd::slice::slice_subrange(s, i, n);
            return parse_u64_bytes(seg);
        }
        i = i - 1;
    }
    proof {
        s@.index_of_last_ensures(SLASH);
        match s@.index_of_last(SLASH) {
            Some(l) => {
                assert(s@[l] != SLASH);
                assert(false);
            },
            None => {},
        }
    }
    parse_u64_bytes(s)
}

} // verus!
