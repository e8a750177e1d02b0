//! Character-level helpers for the file-name grammar: digit runs and their
//! decimal values.

use vstd::prelude::*;
use vstd::string::*;

verus! {

pub open spec fn is_digit(c: char) -> bool {
    48 <= (c as u32) <= 57
}

pub open spec fn digit_of(c: char) -> nat {
    ((c as u32) - 48) as nat
}

/// Letters, digits and `_` (the ASCII word characters).
pub open spec fn is_word(c: char) -> bool {
    is_digit(c) || (65 <= (c as u32) <= 90) || (97 <= (c as u32) <= 122) || c == '_'
}

pub open spec fn all_digits(s: Seq<char>, from: int, to: int) -> bool {
    forall|k: int| from <= k < to ==> #[trigger] is_digit(s[k])
}

pub open spec fn all_word(s: Seq<char>, from: int, to: int) -> bool {
    forall|k: int| from <= k < to ==> #[trigger] is_word(s[k])
}

/// The decimal value of the digits `s[from..to]`.
pub open spec fn digits_val(s: Seq<char>, from: int, to: int) -> nat
    decreases to - from,
{
    if to <= from {
        0
    } else {
        digits_val(s, from, to - 1) * 10 + digit_of(s[to - 1])
    }
}

/// The end of the run of digits that starts at `i`, looking no further than `n`.
pub open spec fn run_end(s: Seq<char>, i: int, n: int) -> int
    decreases n - i,
{
    if i >= n || !is_digit(s[i]) {
        i
    } else {
        run_end(s, i + 1, n)
    }
}

/// The start of the run of digits that ends at `j`.
pub open spec fn run_start(s: Seq<char>, j: int) -> int
    decreases j,
{
    if j <= 0 || !is_digit(s[j - 1]) {
        j
    } else {
        run_start(s, j - 1)
    }
}

pub proof fn lemma_run_end(s: Seq<char>, i: int, n: int)
    requires
        0 <= i <= n <= s.len(),
    ensures
        i <= run_end(s, i, n) <= n,
        all_digits(s, i, run_end(s, i, n)),
        run_end(s, i, n) == n || !is_digit(s[run_end(s, i, n)]),
    decreases n - i,
{
    if i < n && is_digit(s[i]) {
        lemma_run_end(s, i + 1, n);
    }
}

pub proof fn lemma_run_start(s: Seq<char>, j: int)
    requires
        0 <= j <= s.len(),
    ensures
        0 <= run_start(s, j) <= j,
        all_digits(s, run_start(s, j), j),
        run_start(s, j) == 0 || !is_digit(s[run_start(s, j) - 1]),
    decreases j,
{
    if j > 0 && is_digit(s[j - 1]) {
        lemma_run_start(s, j - 1);
    }
}

pub proof fn lemma_digits_monotone(s: Seq<char>, from: int, k: int, to: int)
    requires
        from <= k <= to,
    ensures
        digits_val(s, from, k) <= digits_val(s, from, to),
    decreases to - k,
{
    if k < to {
        lemma_digits_monotone(s, from, k, to - 1);
    }
}

pub fn is_digit_char(c: char) -> (r: bool)
    ensures
        r == is_digit(c),
{
    let u = c as u32;
    48 <= u && u <= 57
}

pub fn is_word_char(c: char) -> (r: bool)
    ensures
        r == is_word(c),
{
    let u = c as u32;
    (48 <= u && u <= 57) || (65 <= u && u <= 90) || (97 <= u && u <= 122) || c == '_'
}

/// The characters of `s`, one per element.
pub fn chars_of(s: &str) -> (v: Vec<char>)
    ensures
        v@ == s@,
{
    let n = s.unicode_len();
    let mut v: Vec<char> = Vec::new();
    let mut i: usize = 0;
    while i < n
        invariant
            i <= n,
            n == s@.len(),
            v@ == s@.subrange(0, i as int),
        decreases n - i,
    {
        v.push(s.get_char(i));
        i += 1;
        assert(v@ =~= s@.subrange(0, i as int));
    }
    assert(v@ =~= s@);
    v
}

pub fn find_run_end(v: &Vec<char>, i: usize, n: usize) -> (r: usize)
    requires
        i <= n <= v@.len(),
    ensures
        r == run_end(v@, i as int, n as int),
{
    let mut j = i;
    while j < n && is_digit_char(v[j])
        invariant
            i <= j <= n,
            n <= v@.len(),
            run_end(v@, i as int, n as int) == run_end(v@, j as int, n as int),
        decreases n - j,
    {
        j += 1;
    }
    j
}

pub fn find_run_start(v: &Vec<char>, j: usize) -> (r: usize)
    requires
        j <= v@.len(),
    ensures
        r == run_start(v@, j as int),
{
    let mut k = j;
    while k > 0 && is_digit_char(v[k - 1])
        invariant
            k <= j,
            j <= v@.len(),
            run_start(v@, j as int) == run_start(v@, k as int),
        decreases k,
    {
        k -= 1;
    }
    k
}

/// The value of the digits `v[from..to]`, or `None` when it exceeds `u32::MAX`.
pub fn digits_value(v: &Vec<char>, from: usize, to: usize) -> (r: Option<u32>)
    requires
        from <= to <= v@.len(),
        all_digits(v@, from as int, to as int),
    ensures
        r == (if digits_val(v@, from as int, to as int) <= u32::MAX {
            Some(digits_val(v@, from as int, to as int) as u32)
        } else {
            None::<u32>
        }),
{
    let mut acc: u64 = 0;
    let mut k = from;
    while k < to
        invariant
            from <= k <= to,
            to <= v@.len(),
            all_digits(v@, from as int, to as int),
            acc == digits_val(v@, from as int, k as int),
            acc <= u32::MAX,
        decreases to - k,
    {
        assert(is_digit(v@[k as int]));
        let d = (v[k] as u32 - 48) as u64;
        acc = acc * 10 + d;
        k += 1;
        if acc > 4294967295 {
            proof {
                lemma_digits_monotone(v@, from as int, k as int, to as int);
            }
            return None;
        }
    }
    Some(acc as u32)
}

pub fn all_word_chars(v: &Vec<char>, from: usize, to: usize) -> (r: bool)
    requires
        from <= to <= v@.len(),
    ensures
        r == all_word(v@, from as int, to as int),
{
    let mut k = from;
    while k < to
        invariant
            from <= k <= to,
            to <= v@.len(),
            all_word(v@, from as int, k as int),
        decreases to - k,
    {
        if !is_word_char(v[k]) {
            return false;
        }
        k += 1;
    }
    true
}

/// Whether `v[..n]` ends with `t`.
pub fn ends_with_at(v: &Vec<char>, n: usize, t: &Vec<char>) -> (r: bool)
    requires
        n <= v@.len(),
    ensures
        r == (n >= t@.len() && v@.subrange(n - t@.len(), n as int) == t@),
{
    if n < t.len() {
        return false;
    }
    let base = n - t.len();
    let mut k: usize = 0;
    while k < t.len()
        invariant
            base + t@.len() == n,
            n <= v@.len(),
            k <= t@.len(),
            forall|i: int| 0 <= i < k ==> v@[base + i] == t@[i],
        decreases t@.len() - k,
    {
        if v[base + k] != t[k] {
            assert(v@.subrange(base as int, n as int)[k as int] != t@[k as int]);
            return false;
        }
        k += 1;
    }
    assert(v@.subrange(base as int, n as int) =~= t@);
    true
}

} // verus!
