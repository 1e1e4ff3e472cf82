//! Small text utilities shared across the crate: building strings one
//! character at a time, decoding bytes as UTF-8, decimal formatting, and
//! ASCII case handling.

use vstd::prelude::*;
use vstd::string::StrSliceExecFns;
use vstd::utf8::{decode_utf8, encode_utf8, valid_utf8};

verus! {

/// Character-for-character string comparison, equal exactly when the views
/// are.
pub fn str_eq(a: &str, b: &str) -> (r: bool)
    ensures
        r == (a@ == b@),
{
    let alen = a.unicode_len();
    let blen = b.unicode_len();
    if alen != blen {
        return false;
    }
    let mut i: usize = 0;
    while i < alen
        invariant
            alen == a@.len(),
            blen == b@.len(),
            alen == blen,
            i <= alen,
            forall|k: int| 0 <= k < i ==> a@[k] == b@[k],
        decreases alen - i,
    {
        if a.get_char(i) != b.get_char(i) {
            return false;
        }
        i = i + 1;
    }
    proof {
        assert(a@ =~= b@);
    }
    true
}

/// Relies on `String::push`: appends exactly the one character.
#[verifier::external_body]
pub fn string_push(s: &mut String, c: char)
    ensures
        final(s)@ == old(s)@.push(c),
{
    s.push(c);
}

/// Relies on `String::pop`: removes exactly the final character, if any.
#[verifier::external_body]
pub fn string_pop(s: &mut String)
    ensures
        final(s)@ == if old(s)@.len() > 0 {
            old(s)@.drop_last()
        } else {
            old(s)@
        },
{
    s.pop();
}

/// Relies on `str::from_utf8`: succeeds exactly on valid UTF-8 and returns a
/// string whose bytes are the input, so its characters are the input's
/// UTF-8 decoding.
#[verifier::external_body]
pub fn bytes_to_string(b: &[u8]) -> (r: Option<String>)
    ensures
        r is Some <==> valid_utf8(b@),
        r matches Some(s) ==> encode_utf8(s@) == b@ && s@ == decode_utf8(b@),
{
    match core::str::from_utf8(b) {
        Ok(s) => Some(s.to_string()),
        Err(_) => None,
    }
}

pub const DECIMAL_DIGITS: [char; 10] = ['0', '1', '2', '3', '4', '5', '6', '7', '8', '9'];

/// The decimal digit characters of `n`, most significant first.
pub open spec fn spec_decimal(n: nat) -> Seq<char>
    decreases n,
{
    if n < 10 {
        seq![DECIMAL_DIGITS@[n as int]]
    } else {
        spec_decimal(n / 10).push(DECIMAL_DIGITS@[(n % 10) as int])
    }
}

/// Number of decimal digits of `n` (1 for 0).
pub open spec fn digit_count(n: nat) -> nat
    decreases n,
{
    if n < 10 {
        1
    } else {
        1 + digit_count(n / 10)
    }
}

/// Appends the decimal representation of `n` to `s`.
pub fn push_decimal(s: &mut String, n: usize)
    ensures
        final(s)@ == old(s)@ + spec_decimal(n as nat),
    decreases n,
{
    if n >= 10 {
        push_decimal(s, n / 10);
    }
    let d = n % 10;
    string_push(s, DECIMAL_DIGITS[d]);
    proof {
        assert(s@ =~= old(s)@ + spec_decimal(n as nat));
    }
}

/// Every number has at least one digit.
pub proof fn lemma_digit_count_pos(n: nat)
    ensures
        digit_count(n) >= 1,
    decreases n,
{
    if n >= 10 {
        lemma_digit_count_pos(n / 10);
    }
}

/// Powers of ten.
pub open spec fn pow10(k: nat) -> nat
    decreases k,
{
    if k == 0 {
        1
    } else {
        10 * pow10((k - 1) as nat)
    }
}

/// A number below the `k`-th power of ten has at most `k` digits.
pub proof fn lemma_digit_count_pow(n: nat, k: nat)
    requires
        k >= 1,
        n < pow10(k),
    ensures
        digit_count(n) <= k,
    decreases k,
{
    if n >= 10 {
        assert(pow10(k) == 10 * pow10((k - 1) as nat));
        let p = pow10((k - 1) as nat);
        assert(n / 10 < p) by (nonlinear_arith)
            requires
                n < 10 * p,
        ;
        lemma_digit_count_pow(n / 10, (k - 1) as nat);
    }
}

/// Any value that fits in 64 bits has at most 20 decimal digits.
pub proof fn lemma_digit_count_max(n: nat)
    requires
        n < 0x1_0000_0000_0000_0000,
    ensures
        digit_count(n) <= 20,
{
    assert(pow10(20) == 100_000_000_000_000_000_000) by {
        reveal_with_fuel(pow10, 21);
    }
    lemma_digit_count_pow(n, 20);
}

/// Counts the decimal digits of `n`.
pub fn count_digits(n: usize) -> (r: usize)
    ensures
        r == digit_count(n as nat),
{
    let mut m = n;
    let mut count: usize = 1;
    while m >= 10
        invariant
            count >= 1,
            count + digit_count(m as nat) == 1 + digit_count(n as nat),
        decreases m,
    {
        proof {
            lemma_digit_count_max(n as nat);
            lemma_digit_count_pos((m / 10) as nat);
            assert(digit_count(m as nat) >= 2);
            assert(count <= digit_count(n as nat) - 1);
        }
        m = m / 10;
        count = count + 1;
    }
    count
}

/// Whether `c` is ASCII whitespace.
pub open spec fn is_space(c: char) -> bool {
    c == ' ' || c == '\t' || c == '\n' || c == '\r'
}

/// Whether `c` is a decimal digit.
pub open spec fn is_digit(c: char) -> bool {
    '0' <= c && c <= '9'
}

/// The numeric value of a digit sequence, most significant first.
pub open spec fn digits_val(s: Seq<char>) -> int
    decreases s.len(),
{
    if s.len() == 0 {
        0
    } else {
        digits_val(s.drop_last()) * 10 + (s.last() as int - '0' as int)
    }
}

/// What parsing a decimal number yields: the value of a non-empty
/// all-digit string that fits the machine word, nothing otherwise.
pub open spec fn spec_parse_usize(s: Seq<char>) -> Option<int> {
    if s.len() > 0 && (forall|i: int| 0 <= i < s.len() ==> is_digit(#[trigger] s[i]))
        && digits_val(s) <= usize::MAX {
        Some(digits_val(s))
    } else {
        None
    }
}

/// Appending digits never shrinks the value.
pub proof fn lemma_digits_val_grows(s: Seq<char>, i: int)
    requires
        0 <= i <= s.len(),
        forall|k: int| 0 <= k < s.len() ==> is_digit(#[trigger] s[k]),
    ensures
        digits_val(s.subrange(0, i)) <= digits_val(s),
    decreases s.len() - i,
{
    if i < s.len() {
        lemma_digits_val_grows(s, i + 1);
        let pre = s.subrange(0, i);
        let cur = s.subrange(0, i + 1);
        assert(forall|k: int| 0 <= k < pre.len() ==> is_digit(#[trigger] pre[k]));
        lemma_digits_val_nonneg(pre);
        assert(cur.drop_last() =~= pre);
        assert(digits_val(cur) == digits_val(pre) * 10 + (s[i] as int - '0' as int));
        assert(digits_val(cur) >= digits_val(pre)) by (nonlinear_arith)
            requires
                digits_val(cur) == digits_val(pre) * 10 + (s[i] as int - '0' as int),
                s[i] as int - '0' as int >= 0,
                digits_val(pre) >= 0,
        ;
    } else {
        assert(s.subrange(0, s.len() as int) =~= s);
    }
}

/// An all-digit sequence has a non-negative value.
pub proof fn lemma_digits_val_nonneg(s: Seq<char>)
    requires
        forall|k: int| 0 <= k < s.len() ==> is_digit(#[trigger] s[k]),
    ensures
        digits_val(s) >= 0,
    decreases s.len(),
{
    if s.len() > 0 {
        lemma_digits_val_nonneg(s.drop_last());
        assert(forall|k: int|
            0 <= k < s.drop_last().len() ==> is_digit(#[trigger] s.drop_last()[k]));
    }
}

/// Parses a decimal number, exactly as `spec_parse_usize` says.
pub fn parse_usize(s: &str) -> (r: Option<usize>)
    ensures
        r == match spec_parse_usize(s@) {
            Some(v) => Some(v as usize),
            None => Option::<usize>::None,
        },
        r matches Some(v) ==> spec_parse_usize(s@) == Some(v as int),
{
    let n = s.unicode_len();
    if n == 0 {
        return None;
    }
    let mut val: usize = 0;
    let mut i: usize = 0;
    proof {
        assert(s@.subrange(0, 0) =~= Seq::<char>::empty());
    }
    while i < n
        invariant
            n == s@.len(),
            i <= n,
            forall|k: int| 0 <= k < i ==> is_digit(#[trigger] s@[k]),
            val as int == digits_val(s@.subrange(0, i as int)),
        decreases n - i,
    {
        let c = s.get_char(i);
        let u = c as u32;
        if u < 48 || u > 57 {
            return None;
        }
        let d = (u - 48) as usize;
        proof {
            let pre = s@.subrange(0, i as int);
            let cur = s@.subrange(0, i + 1);
            assert(cur.drop_last() =~= pre);
            assert(digits_val(cur) == digits_val(pre) * 10 + (s@[i as int] as int - '0' as int));
        }
        if val > (usize::MAX - d) / 10 {
            proof {
                let cur = s@.subrange(0, i + 1);
                assert(digits_val(cur) > usize::MAX as int) by (nonlinear_arith)
                    requires
                        digits_val(cur) == val as int * 10 + d,
                        val as int > (usize::MAX as int - d) / 10,
                        0 <= d <= 9,
                        d == s@[i as int] as int - '0' as int,
                ;
                if forall|k: int| 0 <= k < s@.len() ==> is_digit(#[trigger] s@[k]) {
                    lemma_digits_val_nonneg(cur);
                    lemma_digits_val_grows(s@, i + 1);
                    assert(digits_val(s@) > usize::MAX as int);
                }
            }
            return None;
        }
        val = val * 10 + d;
        i = i + 1;
    }
    proof {
        assert(s@.subrange(0, n as int) =~= s@);
    }
    Some(val)
}

/// The string without leading and trailing ASCII whitespace.
pub open spec fn spec_trim(s: Seq<char>) -> Seq<char>
    decreases s.len(),
{
    if s.len() == 0 {
        s
    } else if is_space(s.first()) {
        spec_trim(s.drop_first())
    } else if is_space(s.last()) {
        spec_trim(s.drop_last())
    } else {
        s
    }
}

/// Trims ASCII whitespace from both ends, exactly as `spec_trim` says.
#[verifier::rlimit(50)]
pub fn trim_spaces(s: &str) -> (r: String)
    ensures
        r@ == spec_trim(s@),
{
    let n = s.unicode_len();
    let mut from: usize = 0;
    let mut to: usize = n;
    proof {
        assert(s@.subrange(0, n as int) =~= s@);
    }
    while from < to && is_space_char(s.get_char(from))
        invariant
            n == s@.len(),
            from <= to <= n,
            spec_trim(s@) == spec_trim(s@.subrange(from as int, to as int)),
        decreases to - from,
    {
        proof {
            let cur = s@.subrange(from as int, to as int);
            assert(cur.first() == s@[from as int]);
            assert(cur.drop_first() =~= s@.subrange(from + 1, to as int));
        }
        from = from + 1;
    }
    while to > from && is_space_char(s.get_char(to - 1))
        invariant
            n == s@.len(),
            from <= to <= n,
            spec_trim(s@) == spec_trim(s@.subrange(from as int, to as int)),
            from < to ==> !is_space(s@[from as int]),
        decreases to,
    {
        proof {
            let cur = s@.subrange(from as int, to as int);
            assert(cur.last() == s@[to - 1]);
            assert(cur.first() == s@[from as int]);
            assert(cur.drop_last() =~= s@.subrange(from as int, to - 1));
        }
        to = to - 1;
    }
    let mut out = String::new();
    let mut i = from;
    proof {
        let cur = s@.subrange(from as int, to as int);
        if cur.len() > 0 {
            assert(cur.first() == s@[from as int]);
            assert(cur.last() == s@[to - 1]);
        }
        assert(spec_trim(s@) == cur);
        assert(out@ =~= s@.subrange(from as int, from as int));
    }
    while i < to
        invariant
            from <= i <= to <= s@.len(),
            out@ =~= s@.subrange(from as int, i as int),
        decreases to - i,
    {
        string_push(&mut out, s.get_char(i));
        proof {
            assert(out@ =~= s@.subrange(from as int, i + 1));
        }
        i = i + 1;
    }
    out
}

/// Whether `c` is ASCII whitespace, as `is_space` says.
pub fn is_space_char(c: char) -> (r: bool)
    ensures
        r == is_space(c),
{
    c == ' ' || c == '\t' || c == '\n' || c == '\r'
}

/// The whole string lowered character by character, as `ascii_lower_char`
/// does.
pub fn ascii_lower_string(s: &str) -> (r: String)
    ensures
        r@ == s@.map_values(|c: char| ascii_lower_char(c)),
{
    let n = s.unicode_len();
    let mut out = String::new();
    let mut i: usize = 0;
    proof {
        assert(out@ =~= s@.subrange(0, 0).map_values(|c: char| ascii_lower_char(c)));
    }
    while i < n
        invariant
            n == s@.len(),
            i <= n,
            out@ =~= s@.subrange(0, i as int).map_values(|c: char| ascii_lower_char(c)),
        decreases n - i,
    {
        string_push(&mut out, lower_char(s.get_char(i)));
        proof {
            let pre = s@.subrange(0, i as int);
            let cur = s@.subrange(0, i + 1);
            assert(cur.drop_last() =~= pre);
            pre.lemma_push_map_commute(|c: char| ascii_lower_char(c), s@[i as int]);
            assert(cur =~= pre.push(s@[i as int]));
            assert(out@ =~= cur.map_values(|c: char| ascii_lower_char(c)));
        }
        i = i + 1;
    }
    proof {
        assert(s@.subrange(0, n as int) =~= s@);
    }
    out
}

/// ASCII lowering of one character: `A`..`Z` map to `a`..`z`, everything
/// else is unchanged.
pub open spec fn ascii_lower_char(c: char) -> char {
    if 65 <= c as u32 && c as u32 <= 90 {
        ((c as u32 + 32) as u8) as char
    } else {
        c
    }
}

/// Lowers one character as `ascii_lower_char` does.
pub fn lower_char(c: char) -> (r: char)
    ensures
        r == ascii_lower_char(c),
{
    let u = c as u32;
    if 65 <= u && u <= 90 {
        ((u + 32) as u8) as char
    } else {
        c
    }
}

} // verus!
