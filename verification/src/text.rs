//! Character-sequence utilities shared by the CSS parser, the printer and
//! the class-name generator: conversions between `String` and `Vec<char>`,
//! whitespace trimming, literal substring replacement and hexadecimal
//! formatting.

use vstd::prelude::*;

verus! {

/// Relies on `str::chars`: the iterator yields exactly the characters of the
/// string's view, in order.
#[verifier::external_body]
pub fn chars_of(s: &str) -> (r: Vec<char>)
    ensures
        r@ == s@,
{
    s.chars().collect()
}

/// Relies on `String`'s `FromIterator<char>` implementation: collecting the
/// characters of a vector yields the string with exactly those characters.
#[verifier::external_body]
pub fn string_of(v: &Vec<char>) -> (r: String)
    ensures
        r@ == v@,
{
    v.iter().collect()
}

/// Copies the characters of `s` between `a` (inclusive) and `b` (exclusive).
pub fn copy_range(s: &Vec<char>, a: usize, b: usize) -> (r: Vec<char>)
    requires
        a <= b <= s.len(),
    ensures
        r@ == s@.subrange(a as int, b as int),
{
    let mut r: Vec<char> = Vec::new();
    let mut i: usize = a;
    while i < b
        invariant
            a <= i <= b <= s.len(),
            r@ == s@.subrange(a as int, i as int),
        decreases b - i,
    {
        r.push(s[i]);
        i = i + 1;
        proof {
            assert(r@ =~= s@.subrange(a as int, i as int));
        }
    }
    r
}

/// The white-space characters recognized between CSS tokens.
pub open spec fn is_space(c: char) -> bool {
    c == ' ' || c == '\n' || c == '\t' || c == '\r'
}

/// Executable form of [`is_space`].
pub fn is_space_char(c: char) -> (r: bool)
    ensures
        r == is_space(c),
{
    c == ' ' || c == '\n' || c == '\t' || c == '\r'
}

/// Index of the first character at or after `i` that is not white space
/// (`s.len()` when all remaining characters are white space).
pub open spec fn first_non_space(s: Seq<char>, i: int) -> int
    recommends
        0 <= i <= s.len(),
    decreases s.len() - i,
{
    if i < 0 || i >= s.len() {
        s.len() as int
    } else if is_space(s[i]) {
        first_non_space(s, i + 1)
    } else {
        i
    }
}

/// End (exclusive) of the last character before `i` that is not white space
/// (`0` when all of them are white space).
pub open spec fn last_non_space_end(s: Seq<char>, i: int) -> int
    recommends
        0 <= i <= s.len(),
    decreases i,
{
    if i <= 0 {
        0
    } else if is_space(s[i - 1]) {
        last_non_space_end(s, i - 1)
    } else {
        i
    }
}

/// The sequence with leading and trailing white space removed.
pub open spec fn trim_spec(s: Seq<char>) -> Seq<char> {
    let lo = first_non_space(s, 0);
    let hi = last_non_space_end(s, s.len() as int);
    if lo <= hi {
        s.subrange(lo, hi)
    } else {
        Seq::<char>::empty()
    }
}

proof fn lemma_first_non_space_bounds(s: Seq<char>, i: int)
    requires
        0 <= i <= s.len(),
    ensures
        i <= first_non_space(s, i) <= s.len(),
    decreases s.len() - i,
{
    if i < s.len() && is_space(s[i]) {
        lemma_first_non_space_bounds(s, i + 1);
    }
}

proof fn lemma_last_non_space_end_bounds(s: Seq<char>, i: int)
    requires
        0 <= i <= s.len(),
    ensures
        0 <= last_non_space_end(s, i) <= i,
    decreases i,
{
    if i > 0 && is_space(s[i - 1]) {
        lemma_last_non_space_end_bounds(s, i - 1);
    }
}

/// Removes leading and trailing white space.
pub fn trim(s: &Vec<char>) -> (r: Vec<char>)
    ensures
        r@ == trim_spec(s@),
{
    let mut lo: usize = 0;
    while lo < s.len() && is_space_char(s[lo])
        invariant
            0 <= lo <= s.len(),
            first_non_space(s@, 0) == first_non_space(s@, lo as int),
        decreases s.len() - lo,
    {
        lo = lo + 1;
    }
    let mut hi: usize = s.len();
    while hi > 0 && is_space_char(s[hi - 1])
        invariant
            0 <= hi <= s.len(),
            last_non_space_end(s@, s.len() as int) == last_non_space_end(s@, hi as int),
        decreases hi,
    {
        hi = hi - 1;
    }
    proof {
        lemma_first_non_space_bounds(s@, 0);
        lemma_last_non_space_end_bounds(s@, s@.len() as int);
    }
    if lo <= hi {
        copy_range(s, lo, hi)
    } else {
        Vec::new()
    }
}

/// Replaces every non-overlapping occurrence of `pat` in `s` by `to`,
/// scanning from the left, exactly as `str::replace` does.
pub open spec fn replace_all(s: Seq<char>, pat: Seq<char>, to: Seq<char>) -> Seq<char>
    decreases s.len(),
{
    if pat.len() == 0 || s.len() < pat.len() {
        s
    } else if s.take(pat.len() as int) == pat {
        to + replace_all(s.skip(pat.len() as int), pat, to)
    } else {
        seq![s[0]] + replace_all(s.skip(1), pat, to)
    }
}

/// Whether `pat` occurs in `s` starting at position `i`.
pub open spec fn matches_at_spec(s: Seq<char>, i: int, pat: Seq<char>) -> bool {
    i + pat.len() <= s.len() && s.subrange(i, i + pat.len() as int) == pat
}

/// Checks whether `pat` occurs in `s` starting at position `i`.
pub fn matches_at(s: &Vec<char>, i: usize, pat: &Vec<char>) -> (r: bool)
    requires
        i <= s.len(),
    ensures
        r == matches_at_spec(s@, i as int, pat@),
{
    if pat.len() > s.len() - i {
        proof {
            assert(i + pat@.len() > s@.len());
        }
        return false;
    }
    let mut k: usize = 0;
    while k < pat.len()
        invariant
            0 <= k <= pat.len(),
            i + pat.len() <= s.len(),
            forall|j: int| 0 <= j < k ==> s@[i + j] == pat@[j],
        decreases pat.len() - k,
    {
        if s[i + k] != pat[k] {
            proof {
                assert(s@.subrange(i as int, i + pat@.len() as int)[k as int] != pat@[k as int]);
            }
            return false;
        }
        k = k + 1;
    }
    proof {
        assert(s@.subrange(i as int, i + pat@.len() as int) =~= pat@);
    }
    true
}

proof fn lemma_replace_step_no_match(s: Seq<char>, i: int, pat: Seq<char>, to: Seq<char>)
    requires
        0 <= i < s.len(),
        pat.len() > 0,
        !matches_at_spec(s, i, pat),
    ensures
        replace_all(s.skip(i), pat, to) == seq![s[i]] + replace_all(s.skip(i + 1), pat, to),
{
    let rem = s.skip(i);
    assert(rem.len() == s.len() - i);
    if rem.len() < pat.len() {
        assert(replace_all(rem, pat, to) == rem);
        let rem1 = s.skip(i + 1);
        assert(rem1.len() < pat.len());
        assert(replace_all(rem1, pat, to) == rem1);
        assert(rem =~= seq![s[i]] + rem1);
    } else {
        assert(rem.take(pat.len() as int) =~= s.subrange(i, i + pat.len() as int));
        assert(rem.take(pat.len() as int) != pat);
        assert(replace_all(rem, pat, to) == seq![rem[0]] + replace_all(rem.skip(1), pat, to));
        assert(rem[0] == s[i]);
        assert(rem.skip(1) =~= s.skip(i + 1));
    }
}

proof fn lemma_replace_step_match(s: Seq<char>, i: int, pat: Seq<char>, to: Seq<char>)
    requires
        0 <= i <= s.len(),
        pat.len() > 0,
        matches_at_spec(s, i, pat),
    ensures
        replace_all(s.skip(i), pat, to) == to + replace_all(s.skip(i + pat.len()), pat, to),
{
    let rem = s.skip(i);
    assert(rem.take(pat.len() as int) =~= s.subrange(i, i + pat.len() as int));
    assert(rem.take(pat.len() as int) == pat);
    assert(replace_all(rem, pat, to) == to + replace_all(rem.skip(pat.len() as int), pat, to));
    assert(rem.skip(pat.len() as int) =~= s.skip(i + pat.len()));
}

/// Replaces every non-overlapping occurrence of `pat` by `to`, left to right.
pub fn replace(s: &Vec<char>, pat: &Vec<char>, to: &Vec<char>) -> (r: Vec<char>)
    requires
        pat.len() > 0,
    ensures
        r@ == replace_all(s@, pat@, to@),
{
    let mut out: Vec<char> = Vec::new();
    let mut i: usize = 0;
    proof {
        assert(s@.skip(0) =~= s@);
    }
    while i < s.len()
        invariant
            0 <= i <= s.len(),
            pat.len() > 0,
            replace_all(s@, pat@, to@) == out@ + replace_all(s@.skip(i as int), pat@, to@),
        decreases s.len() - i,
    {
        if matches_at(s, i, pat) {
            proof {
                lemma_replace_step_match(s@, i as int, pat@, to@);
            }
            let mut k: usize = 0;
            let ghost out0 = out@;
            while k < to.len()
                invariant
                    0 <= k <= to.len(),
                    out@ == out0 + to@.take(k as int),
                decreases to.len() - k,
            {
                out.push(to[k]);
                k = k + 1;
                proof {
                    assert(out@ =~= out0 + to@.take(k as int));
                }
            }
            proof {
                assert(to@.take(to@.len() as int) =~= to@);
            }
            i = i + pat.len();
        } else {
            proof {
                lemma_replace_step_no_match(s@, i as int, pat@, to@);
            }
            out.push(s[i]);
            i = i + 1;
        }
        proof {
            assert(out@ + replace_all(s@.skip(i as int), pat@, to@) =~= replace_all(
                s@,
                pat@,
                to@,
            ));
        }
    }
    proof {
        assert(s@.skip(i as int) =~= Seq::<char>::empty());
        assert(replace_all(Seq::<char>::empty(), pat@, to@) == Seq::<char>::empty());
        assert(out@ + Seq::<char>::empty() =~= out@);
    }
    out
}

/// The lowercase hexadecimal digit for a value below 16.
pub open spec fn hex_digit(d: int) -> char {
    if d < 10 {
        ((48 + d) as u8) as char
    } else {
        ((97 + (d - 10)) as u8) as char
    }
}

/// The hexadecimal digits of `v` without leading zeros; empty for zero.
pub open spec fn hex_digits(v: int) -> Seq<char>
    decreases v,
{
    if v <= 0 {
        Seq::<char>::empty()
    } else {
        hex_digits(v / 16).push(hex_digit(v % 16))
    }
}

/// `v` printed in lowercase hexadecimal, as `{:x}` formatting prints it:
/// no leading zeros, and a single `0` for zero.
pub open spec fn hex_string(v: int) -> Seq<char> {
    if v == 0 {
        seq!['0']
    } else {
        hex_digits(v)
    }
}

/// Formats `v` in lowercase hexadecimal.
pub fn hex_u128(v: u128) -> (r: Vec<char>)
    ensures
        r@ == hex_string(v as int),
{
    if v == 0 {
        let mut r: Vec<char> = Vec::new();
        r.push('0');
        proof {
            assert(r@ =~= seq!['0']);
        }
        return r;
    }
    let mut digits: Vec<char> = Vec::new();
    let mut x: u128 = v;
    while x > 0
        invariant
            hex_digits(v as int) == hex_digits(x as int) + digits@,
        decreases x,
    {
        let d: u128 = x % 16;
        let c = if d < 10 {
            ((48 + d) as u8) as char
        } else {
            ((87 + d) as u8) as char
        };
        assert(c == hex_digit(d as int));
        digits.insert(0, c);
        x = x / 16;
        proof {
            assert(hex_digits((16 * (x as int) + d as int)) == hex_digits(x as int).push(
                hex_digit(d as int),
            ));
            assert(hex_digits(x as int).push(hex_digit(d as int)) + digits@.skip(1) =~= hex_digits(
                x as int,
            ) + digits@);
        }
    }
    proof {
        assert(hex_digits(0int) =~= Seq::<char>::empty());
        assert(Seq::<char>::empty() + digits@ =~= digits@);
    }
    digits
}

/// The first `n` characters of `s`, or all of `s` when it is shorter.
pub open spec fn prefix_spec(s: Seq<char>, n: int) -> Seq<char> {
    if n <= s.len() {
        s.take(n)
    } else {
        s
    }
}

/// Copies the first `n` characters of `s`, or all of them when `s` is
/// shorter than `n`.
pub fn prefix(s: &Vec<char>, n: usize) -> (r: Vec<char>)
    ensures
        r@ == prefix_spec(s@, n as int),
{
    if n <= s.len() {
        let r = copy_range(s, 0, n);
        proof {
            assert(s@.subrange(0, n as int) =~= s@.take(n as int));
        }
        r
    } else {
        let r = copy_range(s, 0, s.len());
        proof {
            assert(s@.subrange(0, s@.len() as int) =~= s@);
        }
        r
    }
}

} // verus!
