//! Small verified string utilities: character-wise equality and decimal
//! number parsing for record values.

use vstd::prelude::*;
use vstd::utf8::{decode_utf8, valid_utf8};

verus! {

/// Relies on String::from_utf8: it succeeds exactly on valid UTF-8 and
/// yields the text those bytes encode.
#[verifier::external_body]
pub(crate) fn utf8_to_string(b: &Vec<u8>) -> (r: Option<String>)
    ensures
        r is Some <==> valid_utf8(b@),
        r matches Some(s) ==> s@ == decode_utf8(b@),
{
    String::from_utf8(b.clone()).ok()
}

/// Character-wise string equality, phrased over the string views.
pub fn str_eq(a: &str, b: &str) -> (r: bool)
    ensures
        r == (a@ == b@),
{
    let na = a.unicode_len();
    let nb = b.unicode_len();
    if na != nb {
        return false;
    }
    let mut i: usize = 0;
    while i < na
        invariant
            i <= na,
            na == a@.len(),
            na == b@.len(),
            forall|j: int| 0 <= j < i ==> a@[j] == b@[j],
        decreases na - i,
    {
        if a.get_char(i) != b.get_char(i) {
            return false;
        }
        i = i + 1;
    }
    proof {
        assert(a@ =~= b@);
    }
    true
}

/// First position of `c` at or after `i`, or `s.len()` if there is none.
pub open spec fn find_char_from(s: Seq<char>, c: char, i: int) -> int
    decreases s.len() - i
        when 0 <= i <= s.len()
{
    if i >= s.len() {
        s.len() as int
    } else if s[i] == c {
        i
    } else {
        find_char_from(s, c, i + 1)
    }
}

pub proof fn lemma_find_char_from(s: Seq<char>, c: char, i: int)
    requires
        0 <= i <= s.len(),
    ensures
        i <= find_char_from(s, c, i) <= s.len(),
        find_char_from(s, c, i) < s.len() ==> s[find_char_from(s, c, i)] == c,
        forall|j: int| i <= j < find_char_from(s, c, i) ==> s[j] != c,
    decreases s.len() - i,
{
    if i < s.len() && s[i] != c {
        lemma_find_char_from(s, c, i + 1);
    }
}

/// `find_char_from` returns `k` exactly when `c` is absent from `[i, k)`
/// and `k` is the end of the text or an occurrence of `c`.
pub proof fn lemma_find_char_from_is(s: Seq<char>, c: char, i: int, k: int)
    requires
        0 <= i <= k <= s.len(),
        forall|j: int| i <= j < k ==> s[j] != c,
        k == s.len() || s[k] == c,
    ensures
        find_char_from(s, c, i) == k,
    decreases k - i,
{
    if i < k {
        lemma_find_char_from_is(s, c, i + 1, k);
    }
}

/// First occurrence of `c` at or after character position `from`.
pub fn scan_char(s: &str, c: char, from: usize, n: usize) -> (e: usize)
    requires
        n == s@.len(),
        from <= n,
    ensures
        e == find_char_from(s@, c, from as int),
{
    let mut i = from;
    while i < n
        invariant
            from <= i <= n,
            n == s@.len(),
            forall|j: int| from <= j < i ==> s@[j] != c,
        decreases n - i,
    {
        if s.get_char(i) == c {
            proof {
                lemma_find_char_from_is(s@, c, from as int, i as int);
            }
            return i;
        }
        i = i + 1;
    }
    proof {
        lemma_find_char_from_is(s@, c, from as int, n as int);
    }
    n
}

/// Last position of `c` strictly before `upto`, or `-1` if there is none.
pub open spec fn rfind_char(s: Seq<char>, c: char, upto: int) -> int
    decreases upto
        when 0 <= upto <= s.len()
{
    if upto <= 0 {
        -1
    } else if s[upto - 1] == c {
        upto - 1
    } else {
        rfind_char(s, c, upto - 1)
    }
}

/// Last occurrence of `c` strictly before character position `upto`.
pub fn scan_char_rev(s: &str, c: char, upto: usize) -> (r: Option<usize>)
    requires
        upto <= s@.len(),
    ensures
        match r {
            Some(k) => k < upto && k == rfind_char(s@, c, upto as int),
            None => rfind_char(s@, c, upto as int) == -1,
        },
{
    let mut i = upto;
    while i > 0
        invariant
            i <= upto <= s@.len(),
            rfind_char(s@, c, upto as int) == rfind_char(s@, c, i as int),
        decreases i,
    {
        if s.get_char(i - 1) == c {
            return Some(i - 1);
        }
        i = i - 1;
    }
    None
}

/// A decimal digit.
pub open spec fn is_digit(c: char) -> bool {
    '0' <= c && c <= '9'
}

/// The numeric value of a decimal digit.
pub open spec fn digit_val(c: char) -> int {
    c as int - '0' as int
}

/// Fold the digits of `s` onto an accumulator, most significant first.
pub open spec fn digits_val_acc(s: Seq<char>, acc: int) -> int
    decreases s.len(),
{
    if s.len() == 0 {
        acc
    } else {
        digits_val_acc(s.drop_first(), acc * 10 + digit_val(s[0]))
    }
}

/// The numeric value of a digit string.
pub open spec fn digits_val(s: Seq<char>) -> int {
    digits_val_acc(s, 0)
}

/// The digit part of a number string: an optional leading `+` is dropped.
pub open spec fn num_body(s: Seq<char>) -> Seq<char> {
    if s.len() > 0 && s[0] == '+' {
        s.drop_first()
    } else {
        s
    }
}

pub open spec fn all_digits(s: Seq<char>) -> bool {
    forall|i: int| 0 <= i < s.len() ==> is_digit(#[trigger] s[i])
}

/// The strings `u64` parsing accepts: an optional `+`, then one or more
/// decimal digits whose value fits in 64 bits.
pub open spec fn is_u64_chars(s: Seq<char>) -> bool {
    let b = num_body(s);
    b.len() > 0 && all_digits(b) && digits_val(b) <= u64::MAX
}

/// The value `u64` parsing gives a string, or `None` where it rejects it.
pub open spec fn parse_u64_spec(s: Seq<char>) -> Option<u64> {
    if is_u64_chars(s) {
        Some(digits_val(num_body(s)) as u64)
    } else {
        None
    }
}

/// Folding digits onto a non-negative accumulator never shrinks it.
proof fn lemma_digits_acc_mono(s: Seq<char>, acc: int)
    requires
        acc >= 0,
        all_digits(s),
    ensures
        digits_val_acc(s, acc) >= acc,
    decreases s.len(),
{
    if s.len() > 0 {
        assert(is_digit(s[0]));
        assert forall|i: int| 0 <= i < s.drop_first().len() implies is_digit(
            #[trigger] s.drop_first()[i],
        ) by {
            assert(s.drop_first()[i] == s[i + 1]);
        }
        lemma_digits_acc_mono(s.drop_first(), acc * 10 + digit_val(s[0]));
    }
}

/// Parse a decimal `u64`, accepting exactly the strings whose digits fit.
pub fn parse_u64(s: &str) -> (r: Option<u64>)
    ensures
        r == parse_u64_spec(s@),
{
    let n = s.unicode_len();
    let mut i: usize = 0;
    if n > 0 && s.get_char(0) == '+' {
        i = 1;
    }
    let ghost body = num_body(s@);
    proof {
        assert(body =~= s@.skip(i as int));
    }
    if i >= n {
        return None;
    }
    let mut acc: u64 = 0;
    let mut j = i;
    proof {
        assert(body.skip(0) =~= body);
        assert(body.subrange(0, 0) =~= Seq::<char>::empty());
    }
    while j < n
        invariant
            i <= j <= n,
            n == s@.len(),
            body == num_body(s@),
            body =~= s@.skip(i as int),
            all_digits(body.subrange(0, j - i)),
            digits_val_acc(body.skip(j - i), acc as int) == digits_val(body),
        decreases n - j,
    {
        let ghost k = j - i;
        let c = s.get_char(j);
        let cu = c as u32;
        if !(cu >= 48 && cu <= 57) {
            proof {
                assert(body[k] == c && !is_digit(c));
            }
            return None;
        }
        let d = (cu - 48) as u64;
        proof {
            assert(body.skip(k).drop_first() =~= body.skip(k + 1));
            assert(body.skip(k)[0] == body[k] && body[k] == c);
        }
        let ghost next = acc as int * 10 + d as int;
        let step = match acc.checked_mul(10) {
            Some(x) => x.checked_add(d),
            None => None,
        };
        match step {
            Some(y) => {
                acc = y;
            },
            None => {
                proof {
                    assert(next > u64::MAX);
                    if all_digits(body) {
                        assert forall|t: int| 0 <= t < body.skip(k + 1).len() implies is_digit(
                            #[trigger] body.skip(k + 1)[t],
                        ) by {
                            assert(body.skip(k + 1)[t] == body[t + k + 1]);
                        }
                        lemma_digits_acc_mono(body.skip(k + 1), next);
                        assert(digits_val(body) > u64::MAX);
                    }
                }
                return None;
            },
        }
        proof {
            assert(all_digits(body.subrange(0, k + 1))) by {
                assert(forall|t: int|
                    0 <= t < k + 1 ==> #[trigger] body.subrange(0, k + 1)[t] == body.subrange(
                        0,
                        k,
                    ).push(c)[t]);
            }
        }
        j = j + 1;
    }
    proof {
        assert(body.subrange(0, n - i) =~= body);
        assert(body.skip(n - i) =~= Seq::<char>::empty());
        assert(is_u64_chars(s@));
    }
    Some(acc)
}

} // verus!
