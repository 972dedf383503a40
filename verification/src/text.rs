//! Small text utilities shared by the rest of the library: characters of a string slice,
//! building strings from characters, and decimal rendering of unsigned integers.

use vstd::prelude::*;

verus! {

broadcast use vstd::string::group_string_axioms;

/// The character sequences of a sequence of strings.
pub open spec fn views(v: Seq<String>) -> Seq<Seq<char>> {
    Seq::new(v.len(), |k: int| v[k]@)
}

/// Append one character to a string (`String::push`).
#[verifier::external_body]
pub(crate) fn push_char(s: &mut String, c: char)
    ensures
        final(s)@ == old(s)@.push(c),
{
    s.push(c);
}

/// Whether two string slices hold the same text.
pub(crate) fn same_text(a: &str, b: &str) -> (r: bool)
    ensures
        r == (a@ == b@),
{
    String::from_str(a) == String::from_str(b)
}

/// The characters of a string slice, in order.
pub fn chars_of(s: &str) -> (v: Vec<char>)
    ensures
        v@ == s@,
{
    let mut v: Vec<char> = Vec::new();
    for c in it: s.chars()
        invariant
            it.seq() == s@,
            v@ == it.seq().take(it.index() as int),
    {
        v.push(c);
    }
    v
}

/// The string made of the first `n` characters of `v`.
pub fn string_of(v: &Vec<char>, n: usize) -> (s: String)
    requires
        n <= v.len(),
    ensures
        s@ == v@.take(n as int),
{
    let mut s = String::new();
    let mut i: usize = 0;
    while i < n
        invariant
            i <= n <= v.len(),
            s@ == v@.take(i as int),
        decreases n - i,
    {
        push_char(&mut s, v[i]);
        assert(v@.take(i + 1) =~= v@.take(i as int).push(v@[i as int]));
        i = i + 1;
    }
    s
}

/// The decimal digit for `d` (`0 <= d < 10`).
pub open spec fn digit_char(d: int) -> char {
    (('0' as int) + d) as char
}

/// The decimal rendering of `n`, without leading zeros (`0` for zero).
pub open spec fn decimal(n: nat) -> Seq<char>
    decreases n,
{
    if n < 10 {
        seq![digit_char(n as int)]
    } else {
        decimal(n / 10).push(digit_char((n % 10) as int))
    }
}

/// Render `n` in decimal.
pub fn decimal_string(n: u64) -> (s: String)
    ensures
        s@ == decimal(n as nat),
{
    // Collect the digits least significant first, then emit them in reverse.
    let mut digits: Vec<char> = Vec::new();
    let mut m: u64 = n;
    let ghost mut tail: Seq<char> = seq![];
    loop
        invariant_except_break
            decimal(n as nat) == decimal(m as nat) + tail,
            tail == digits@.reverse(),
        ensures
            decimal(n as nat) == tail,
            tail == digits@.reverse(),
        decreases m,
    {
        let d = (m % 10) as u8;
        let c = ((48u8 + d) as char);
        digits.push(c);
        let ghost old_tail = tail;
        proof {
            tail = seq![c] + old_tail;
            assert(digits@.reverse() =~= seq![c] + old_tail);
            if m >= 10 {
                assert(decimal(m as nat) + old_tail =~= decimal((m / 10) as nat) + tail);
            } else {
                assert(decimal(m as nat) + old_tail =~= tail);
            }
        }
        if m < 10 {
            break;
        }
        m = m / 10;
    }
    let mut s = String::new();
    let mut k: usize = digits.len();
    while k > 0
        invariant
            k <= digits.len(),
            s@ == digits@.reverse().take((digits.len() - k) as int),
        decreases k,
    {
        k = k - 1;
        push_char(&mut s, digits[k]);
        assert(digits@.reverse().take((digits.len() - k) as int) =~= digits@.reverse().take(
            (digits.len() - k - 1) as int,
        ).push(digits@[k as int]));
    }
    assert(digits@.reverse().take(digits.len() as int) =~= digits@.reverse());
    s
}

/// Whether every character of `d` is an ASCII digit.
pub open spec fn all_digits(d: Seq<char>) -> bool {
    forall|k: int| 0 <= k < d.len() ==> '0' <= #[trigger] d[k] && d[k] <= '9'
}

/// The number a string of ASCII digits denotes.
pub open spec fn digits_value(d: Seq<char>) -> nat
    decreases d.len(),
{
    if d.len() == 0 {
        0
    } else {
        digits_value(d.drop_last()) * 10 + ((d.last() as int - '0' as int) as nat)
    }
}

/// The decimal rendering of `n` is a run of ASCII digits that denotes `n`, with no leading
/// zero (the only rendering that starts with `0` is `0` itself).
pub proof fn lemma_decimal_denotes(n: nat)
    ensures
        decimal(n).len() >= 1,
        all_digits(decimal(n)),
        digits_value(decimal(n)) == n,
        decimal(n)[0] == '0' ==> n == 0 && decimal(n).len() == 1,
    decreases n,
{
    if n < 10 {
        let d = decimal(n);
        assert(d.drop_last() =~= Seq::<char>::empty());
        assert(d.last() as int - '0' as int == n);
        assert(digits_value(d.drop_last()) == 0);
        assert(digits_value(d) == digits_value(d.drop_last()) * 10 + ((d.last() as int - '0' as int) as nat));
    } else {
        lemma_decimal_denotes(n / 10);
        let d = decimal(n);
        assert(d.drop_last() =~= decimal(n / 10));
        assert(d[0] == decimal(n / 10)[0]);
        assert(n == (n / 10) * 10 + n % 10) by (nonlinear_arith);
        assert(d.last() == digit_char((n % 10) as int));
        assert(d.last() as int - '0' as int == n % 10);
        assert(digits_value(d) == digits_value(d.drop_last()) * 10 + ((d.last() as int - '0' as int) as nat));
        assert(digits_value(d) == digits_value(decimal(n / 10)) * 10 + (n % 10));
        assert forall|k: int| 0 <= k < d.len() implies '0' <= #[trigger] d[k] && d[k] <= '9' by {
            if k < d.len() - 1 {
                assert(d[k] == decimal(n / 10)[k]);
            }
        }
    }
}

/// The `u64` that text denotes in the syntax `u64::from_str` accepts: an optional `+`, then at
/// least one ASCII digit, with a value that fits.
pub open spec fn u64_from_text(s: Seq<char>) -> Option<u64> {
    let d = if s.len() > 0 && s[0] == '+' {
        s.drop_first()
    } else {
        s
    };
    if d.len() > 0 && all_digits(d) && digits_value(d) <= u64::MAX {
        Some(digits_value(d) as u64)
    } else {
        None
    }
}

proof fn lemma_digits_value_grows(d: Seq<char>, i: int, j: int)
    requires
        0 <= i <= j <= d.len(),
        all_digits(d),
    ensures
        digits_value(d.take(i)) <= digits_value(d.take(j)),
    decreases j - i,
{
    if i < j {
        lemma_digits_value_grows(d, i, j - 1);
        assert(d.take(j).drop_last() =~= d.take(j - 1));
    }
}

/// Parse text as `u64::from_str` does.
pub fn parse_u64(s: &Vec<char>) -> (r: Option<u64>)
    ensures
        r == u64_from_text(s@),
{
    let start: usize = if s.len() > 0 && s[0] == '+' {
        1
    } else {
        0
    };
    let ghost d = if s@.len() > 0 && s@[0] == '+' {
        s@.drop_first()
    } else {
        s@
    };
    assert(d =~= s@.skip(start as int));
    assert(u64_from_text(s@) == (if d.len() > 0 && all_digits(d) && digits_value(d) <= u64::MAX {
        Some(digits_value(d) as u64)
    } else {
        None
    }));
    if start >= s.len() {
        return None;
    }
    let mut acc: u64 = 0;
    let mut i: usize = start;
    assert(d.take(0) =~= Seq::<char>::empty());
    while i < s.len()
        invariant
            start <= i <= s.len(),
            d == s@.skip(start as int),
            u64_from_text(s@) == (if d.len() > 0 && all_digits(d) && digits_value(d) <= u64::MAX {
                Some(digits_value(d) as u64)
            } else {
                None
            }),
            forall|k: int| 0 <= k < i - start ==> '0' <= #[trigger] d[k] && d[k] <= '9',
            acc as nat == digits_value(d.take(i - start)),
        decreases s.len() - i,
    {
        let c = s[i];
        assert(d[i - start] == c);
        if c < '0' || c > '9' {
            assert(!all_digits(d));
            return None;
        }
        let dig = ((c as u32) - 48) as u64;
        assert(d.take(i - start + 1).drop_last() =~= d.take(i - start));
        assert(digits_value(d.take(i - start + 1)) == acc * 10 + dig);
        if acc > (u64::MAX - dig) / 10 {
            proof {
                assert(acc * 10 + dig > u64::MAX) by (nonlinear_arith)
                    requires
                        acc > (u64::MAX - dig) / 10,
                        dig <= 9,
                ;
                let n = d.len() as int;
                if all_digits(d) {
                    lemma_digits_value_grows(d, i - start + 1, n);
                    assert(d.take(n) =~= d);
                    assert(digits_value(d) > u64::MAX);
                }
            }
            return None;
        }
        acc = acc * 10 + dig;
        i = i + 1;
    }
    assert(d.take(i - start) =~= d);
    Some(acc)
}

// ---------------------------------------------------------------------------------------------
// Trimming.
// ---------------------------------------------------------------------------------------------

/// A Unicode `White_Space` character (what `char::is_whitespace` accepts).
pub open spec fn is_space(c: char) -> bool {
    ('\u{9}' <= c && c <= '\u{d}') || c == ' ' || c == '\u{85}' || c == '\u{a0}' || c == '\u{1680}'
        || ('\u{2000}' <= c && c <= '\u{200a}') || c == '\u{2028}' || c == '\u{2029}'
        || c == '\u{202f}' || c == '\u{205f}' || c == '\u{3000}'
}

fn is_space_exec(c: char) -> (b: bool)
    ensures
        b == is_space(c),
{
    ('\u{9}' <= c && c <= '\u{d}') || c == ' ' || c == '\u{85}' || c == '\u{a0}' || c == '\u{1680}'
        || ('\u{2000}' <= c && c <= '\u{200a}') || c == '\u{2028}' || c == '\u{2029}'
        || c == '\u{202f}' || c == '\u{205f}' || c == '\u{3000}'
}

/// `s` without leading and trailing whitespace (what `str::trim` returns): the characters from
/// `lo` to `hi`, where everything outside is whitespace and the ends inside are not.
pub open spec fn is_trim_of(t: Seq<char>, s: Seq<char>) -> bool {
    exists|lo: int, hi: int|
        0 <= lo <= hi <= s.len() && t == s.subrange(lo, hi) && (forall|k: int|
            0 <= k < lo ==> is_space(#[trigger] s[k])) && (forall|k: int|
            hi <= k < s.len() ==> is_space(#[trigger] s[k])) && (lo < hi ==> !is_space(s[lo])
            && !is_space(s[hi - 1]))
}

/// Strip leading and trailing whitespace.
pub fn trim_text(s: &str) -> (t: String)
    ensures
        is_trim_of(t@, s@),
{
    let cs = chars_of(s);
    let mut lo: usize = 0;
    while lo < cs.len() && is_space_exec(cs[lo])
        invariant
            lo <= cs.len(),
            forall|k: int| 0 <= k < lo ==> is_space(#[trigger] cs@[k]),
        decreases cs.len() - lo,
    {
        lo = lo + 1;
    }
    let mut hi: usize = cs.len();
    while hi > lo && is_space_exec(cs[hi - 1])
        invariant
            lo <= hi <= cs.len(),
            forall|k: int| hi <= k < cs.len() ==> is_space(#[trigger] cs@[k]),
        decreases hi,
    {
        hi = hi - 1;
    }
    let mut t = String::new();
    let mut k: usize = lo;
    while k < hi
        invariant
            lo <= k <= hi <= cs.len(),
            t@ == cs@.subrange(lo as int, k as int),
        decreases hi - k,
    {
        push_char(&mut t, cs[k]);
        assert(cs@.subrange(lo as int, k + 1) =~= cs@.subrange(lo as int, k as int).push(cs@[k as int]));
        k = k + 1;
    }
    assert(is_trim_of(t@, s@)) by {
        assert(t@ == cs@.subrange(lo as int, hi as int));
    }
    t
}

/// A text has exactly one trimmed form.
pub proof fn lemma_trim_unique(t: Seq<char>, s: Seq<char>)
    requires
        is_trim_of(t, s),
    ensures
        (choose|u: Seq<char>| is_trim_of(u, s)) == t,
{
    let u = choose|u: Seq<char>| is_trim_of(u, s);
    let (lo, hi) = choose|lo: int, hi: int|
        0 <= lo <= hi <= s.len() && t == s.subrange(lo, hi) && (forall|k: int|
            0 <= k < lo ==> is_space(#[trigger] s[k])) && (forall|k: int|
            hi <= k < s.len() ==> is_space(#[trigger] s[k])) && (lo < hi ==> !is_space(s[lo])
            && !is_space(s[hi - 1]));
    let (lo2, hi2) = choose|lo: int, hi: int|
        0 <= lo <= hi <= s.len() && u == s.subrange(lo, hi) && (forall|k: int|
            0 <= k < lo ==> is_space(#[trigger] s[k])) && (forall|k: int|
            hi <= k < s.len() ==> is_space(#[trigger] s[k])) && (lo < hi ==> !is_space(s[lo])
            && !is_space(s[hi - 1]));
    if lo < hi && lo2 < hi2 {
        assert(lo == lo2) by {
            if lo < lo2 {
                assert(is_space(s[lo]));
            } else if lo2 < lo {
                assert(is_space(s[lo2]));
            }
        }
        assert(hi == hi2) by {
            if hi < hi2 {
                assert(is_space(s[hi2 - 1]));
            } else if hi2 < hi {
                assert(is_space(s[hi - 1]));
            }
        }
    } else if lo < hi {
        assert(is_space(s[lo]));
    } else if lo2 < hi2 {
        assert(is_space(s[lo2]));
    }
    assert(t =~= u);
}

} // verus!
