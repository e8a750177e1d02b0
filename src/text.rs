//! Decimal text of integers, and the cells of a printed tensor.

use vstd::prelude::*;
use vstd::string::*;

verus! {

pub open spec fn digit_char(d: nat) -> char {
    seq!['0', '1', '2', '3', '4', '5', '6', '7', '8', '9'][d as int]
}

/// The decimal digits of `n`, without leading zeros.
pub open spec fn decimal(n: nat) -> Seq<char>
    decreases n,
{
    if n < 10 {
        seq![digit_char(n)]
    } else {
        decimal(n / 10).push(digit_char(n % 10))
    }
}

/// `c` repeated `k` times.
pub open spec fn repeat(c: char, k: int) -> Seq<char> {
    Seq::new(if k > 0 { k as nat } else { 0 }, |_i: int| c)
}

/// `n` in decimal, padded on the left with `c` to at least `width` characters.
pub open spec fn padded(n: nat, width: int, c: char) -> Seq<char> {
    repeat(c, width - decimal(n).len()) + decimal(n)
}

fn digit_str(d: u64) -> (r: &'static str)
    requires
        d < 10,
    ensures
        r@ == seq![digit_char(d as nat)],
{
    let all = "0123456789";
    proof {
        reveal_strlit("0123456789");
    }
    let r = all.substring_char(d as usize, d as usize + 1);
    assert(r@ =~= seq![digit_char(d as nat)]);
    r
}

/// The decimal digits of `n`.
pub fn decimal_string(n: u64) -> (r: String)
    ensures
        r@ == decimal(n as nat),
    decreases n,
{
    if n < 10 {
        String::from_str(digit_str(n))
    } else {
        let head = decimal_string(n / 10);
        head.concat(digit_str(n % 10))
    }
}

/// `n` in decimal, padded on the left with `c` to at least `width` characters.
pub fn padded_string(n: u64, width: usize, c: char) -> (r: String)
    requires
        c == ' ' || c == '0',
    ensures
        r@ == padded(n as nat, width as int, c),
{
    let digits = decimal_string(n);
    let len = digits.as_str().unicode_len();
    let unit = if c == ' ' {
        " "
    } else {
        "0"
    };
    proof {
        reveal_strlit(" ");
        reveal_strlit("0");
    }
    let mut r = String::new();
    let mut k: usize = 0;
    while k + len < width
        invariant
            len == decimal(n as nat).len(),
            unit@ == seq![c],
            r@ == repeat(c, k as int),
            k + len <= width || k == 0,
        decreases width - k,
    {
        r.append(unit);
        k += 1;
        assert(r@ =~= repeat(c, k as int));
    }
    assert(r@ =~= repeat(c, width - decimal(n as nat).len()));
    r.concat(digits.as_str())
}

/// The cell printed for a zero element.
pub fn write_zero() -> (r: String)
    ensures
        r@ == seq![' ', '_', '_', '_', '_', '_', '_', '_', '_'],
{
    proof {
        reveal_strlit(" ________");
    }
    String::from_str(" ________")
}

/// The cell printed for a non-zero integer element: right-aligned in six columns.
pub fn write_int(data: u64) -> (r: String)
    ensures
        r@ == padded(data as nat, 6, ' '),
{
    padded_string(data, 6, ' ')
}

} // verus!
