//! GGUF file names: `<base>[-<size>[-<fine tune>]][-v<major>.<minor>]-<encoding>[-LoRA|-vocab][-NNNNN-of-NNNNN].gguf`.

use crate::text::{decimal, decimal_string, padded, padded_string};
use crate::chars::{
    all_digits, all_word, all_word_chars, chars_of, digits_val, digits_value, ends_with_at,
    find_run_end,
    find_run_start, lemma_run_end, lemma_run_start, run_end, run_start,
};
use vstd::prelude::*;
use vstd::string::*;

verus! {

/// A model version, written `v<major>.<minor>`.
#[derive(Clone, Copy, Debug, PartialEq, Eq, Structural)]
pub struct Version {
    pub major: u32,
    pub minor: u32,
}

impl Version {
    pub fn new(major: u32, minor: u32) -> (r: Self)
        ensures
            r.major == major,
            r.minor == minor,
    {
        Version { major, minor }
    }
}

/// The kind of file a name stands for.
#[derive(Clone, Copy, Debug, PartialEq, Eq, Structural)]
pub enum Type {
    Default,
    LoRA,
    Vocab,
}

/// A model size such as `7B`, `1.1B` or `2x7.5B`: `e` experts of `a.b` units `l`.
#[derive(Clone, Copy, Debug, PartialEq, Eq, Structural)]
pub struct SizeLabel {
    pub e: u32,
    pub a: u32,
    pub b: u32,
    pub l: char,
}

impl SizeLabel {
    pub fn new(e: u32, a: u32, b: u32, l: char) -> (r: Self)
        ensures
            r == (SizeLabel { e, a, b, l }),
    {
        SizeLabel { e, a, b, l }
    }
}

/// Shard `index` of `count`, both counted from 1.
#[derive(Clone, Copy, Debug, PartialEq, Eq, Structural)]
pub struct Shard {
    pub index: u32,
    pub count: u32,
}

impl Shard {
    pub open spec fn wf(&self) -> bool {
        self.index >= 1 && self.count >= 1
    }

    pub fn new(index: u32, count: u32) -> (r: Self)
        requires
            index >= 1,
            count >= 1,
        ensures
            r.index == index,
            r.count == count,
    {
        Shard { index, count }
    }

    pub open spec fn single() -> Shard {
        Shard { index: 1, count: 1 }
    }
}

impl Default for Shard {
    fn default() -> (r: Self)
        ensures
            r == Shard::single(),
    {
        Shard { index: 1, count: 1 }
    }
}

/// The name did not end in `.gguf`.
#[derive(Clone, Copy, Debug, PartialEq, Eq, Structural)]
pub struct GGufExtNotMatch;

/// The parts of a GGUF file name.
#[derive(Clone, Debug)]
pub struct GGufFileName {
    /// Usually the model's name.
    pub base_name: String,
    pub size_label: Option<SizeLabel>,
    /// Empty when the name has no fine-tune part.
    pub fine_tune: String,
    pub version: Option<Version>,
    pub encoding: Option<String>,
    pub type_: Type,
    pub shard: Shard,
}

/// What a [`GGufFileName`] holds, with its strings as character sequences.
pub struct NameView {
    pub base_name: Seq<char>,
    pub size_label: Option<SizeLabel>,
    pub fine_tune: Seq<char>,
    pub version: Option<Version>,
    pub encoding: Option<Seq<char>>,
    pub type_: Type,
    pub shard: Shard,
}

pub open spec fn opt_view(s: Option<String>) -> Option<Seq<char>> {
    match s {
        Some(x) => Some(x@),
        None => None,
    }
}

impl View for GGufFileName {
    type V = NameView;

    open spec fn view(&self) -> NameView {
        NameView {
            base_name: self.base_name@,
            size_label: self.size_label,
            fine_tune: self.fine_tune@,
            version: self.version,
            encoding: opt_view(self.encoding),
            type_: self.type_,
            shard: self.shard,
        }
    }
}

// ---- the grammar, over the characters `s[..n]` ----

pub open spec fn gguf_ext() -> Seq<char> {
    seq!['.', 'g', 'g', 'u', 'f']
}

pub open spec fn vocab_suffix() -> Seq<char> {
    seq!['-', 'v', 'o', 'c', 'a', 'b']
}

pub open spec fn lora_suffix() -> Seq<char> {
    seq!['-', 'L', 'o', 'R', 'A']
}

pub open spec fn ends_with(s: Seq<char>, n: int, t: Seq<char>) -> bool {
    n >= t.len() && s.subrange(n - t.len(), n) == t
}

/// `s[..n]` ends with `-NNNNN-of-NNNNN`, two non-zero five-digit numbers.
pub open spec fn shard_at(s: Seq<char>, n: int) -> bool {
    &&& n >= 15
    &&& s[n - 15] == '-'
    &&& all_digits(s, n - 14, n - 9)
    &&& s[n - 9] == '-'
    &&& s[n - 8] == 'o'
    &&& s[n - 7] == 'f'
    &&& s[n - 6] == '-'
    &&& all_digits(s, n - 5, n)
    &&& digits_val(s, n - 14, n - 9) > 0
    &&& digits_val(s, n - 5, n) > 0
}

/// Where a version suffix `-v<major>.<minor>` of `s[..n]` starts, and its value.
pub open spec fn version_at(s: Seq<char>, n: int) -> Option<(int, Version)> {
    let j = run_start(s, n);
    let i = run_start(s, j - 1);
    if j < n && j >= 1 && s[j - 1] == '.' && i < j - 1 && i >= 2 && s[i - 1] == 'v' && s[i
        - 2] == '-' && digits_val(s, i, j - 1) <= u32::MAX && digits_val(s, j, n) <= u32::MAX {
        Some(
            (
                i - 2,
                Version {
                    major: digits_val(s, i, j - 1) as u32,
                    minor: digits_val(s, j, n) as u32,
                },
            ),
        )
    } else {
        None
    }
}

pub open spec fn is_size_letter(c: char) -> bool {
    c == 'Q' || c == 'T' || c == 'B' || c == 'M' || c == 'K'
}

/// A size label with an optional fine-tune word, `-[<e>x]<a>[.<b>]<l>[-<word>]`,
/// that starts at `p` and runs to `n`: the label and where the fine-tune word
/// starts (`n` where there is none).
pub open spec fn label_at(s: Seq<char>, p: int, n: int) -> Option<(SizeLabel, int)> {
    let i0 = p + 1;
    let r1 = run_end(s, i0, n);
    let has_e = r1 > i0 && r1 < n && s[r1] == 'x';
    let i = if has_e {
        r1 + 1
    } else {
        i0
    };
    let e = if has_e {
        digits_val(s, i0, r1)
    } else {
        1
    };
    let r2 = run_end(s, i, n);
    let a = digits_val(s, i, r2);
    let has_b = r2 < n && s[r2] == '.';
    let r3 = if has_b {
        run_end(s, r2 + 1, n)
    } else {
        r2
    };
    let b = if has_b {
        digits_val(s, r2 + 1, r3)
    } else {
        0
    };
    let ft = if r3 + 1 == n {
        n
    } else {
        r3 + 2
    };
    if 0 <= p < n && s[p] == '-' && r2 > i && !(has_b && r3 == r2 + 1) && r3 < n
        && is_size_letter(s[r3]) && (r3 + 1 == n || (s[r3 + 1] == '-' && r3 + 2 < n && all_word(
        s,
        r3 + 2,
        n,
    ))) && e <= u32::MAX && a <= u32::MAX && b <= u32::MAX {
        Some((SizeLabel { e: e as u32, a: a as u32, b: b as u32, l: s[r3] }, ft))
    } else {
        None
    }
}

/// The leftmost size label in `s[p..n]`: where it starts, the label, and where
/// its fine-tune word starts.
pub open spec fn first_label(s: Seq<char>, p: int, n: int) -> Option<(int, SizeLabel, int)>
    decreases n - p,
{
    if p >= n {
        None
    } else {
        match label_at(s, p, n) {
            Some((lab, ft)) => Some((p, lab, ft)),
            None => first_label(s, p + 1, n),
        }
    }
}

/// The position of the last `-` in `s[..n]`.
pub open spec fn last_dash(s: Seq<char>, n: int) -> Option<int>
    decreases n,
{
    if n <= 0 {
        None
    } else if s[n - 1] == '-' {
        Some(n - 1)
    } else {
        last_dash(s, n - 1)
    }
}

/// The name `s` without `.gguf` and its shard suffix: its length and the shard.
pub open spec fn strip_shard(s: Seq<char>) -> (int, Shard) {
    let n0 = s.len() - 5;
    if shard_at(s, n0) {
        (
            n0 - 15,
            Shard {
                index: digits_val(s, n0 - 14, n0 - 9) as u32,
                count: digits_val(s, n0 - 5, n0) as u32,
            },
        )
    } else {
        (n0, Shard::single())
    }
}

/// `s[..n]` without its type suffix: its length and the type.
pub open spec fn strip_type(s: Seq<char>, n: int) -> (int, Type) {
    if ends_with(s, n, vocab_suffix()) {
        (n - 6, Type::Vocab)
    } else if ends_with(s, n, lora_suffix()) {
        (n - 5, Type::LoRA)
    } else {
        (n, Type::Default)
    }
}

/// The file name `s` split into its parts; `None` when it does not end in `.gguf`.
///
/// The parts are taken off from the end: `.gguf`, a shard suffix, a type
/// suffix, then the encoding after the last `-`. What is left may end in a
/// version; before that, the leftmost size label (with its fine-tune word)
/// separates the base name. Without a size label the base name is all that is
/// left, and version and encoding are dropped.
///
/// Digits are ASCII digits and word characters ASCII letters, digits and `_`.
/// A size label or version with a number above `u32::MAX` is not recognised,
/// nor a shard suffix with a zero index or count.
pub open spec fn parse_name(s: Seq<char>) -> Option<NameView> {
    if !ends_with(s, s.len() as int, gguf_ext()) {
        None
    } else {
        let (n1, shard) = strip_shard(s);
        let (n2, type_) = strip_type(s, n1);
        match last_dash(s, n2) {
            None => Some(
                NameView {
                    base_name: s.subrange(0, n2),
                    size_label: None,
                    fine_tune: Seq::empty(),
                    version: None,
                    encoding: None,
                    type_,
                    shard,
                },
            ),
            Some(d) => {
                let encoding = s.subrange(d + 1, n2);
                let (h, version) = match version_at(s, d) {
                    Some((v, ver)) => (v, Some(ver)),
                    None => (d, None),
                };
                match first_label(s, 0, h) {
                    Some((p, lab, ft)) => Some(
                        NameView {
                            base_name: s.subrange(0, p),
                            size_label: Some(lab),
                            fine_tune: s.subrange(ft, h),
                            version,
                            encoding: Some(encoding),
                            type_,
                            shard,
                        },
                    ),
                    None => Some(
                        NameView {
                            base_name: s.subrange(0, h),
                            size_label: None,
                            fine_tune: Seq::empty(),
                            version: None,
                            encoding: None,
                            type_,
                            shard,
                        },
                    ),
                }
            },
        }
    }
}


// ---- the parser ----

fn has_shard_suffix(v: &Vec<char>, n: usize) -> (r: bool)
    requires
        n <= v@.len(),
    ensures
        r == shard_at(v@, n as int),
{
    if n < 15 {
        return false;
    }
    if !(v[n - 15] == '-' && v[n - 9] == '-' && v[n - 8] == 'o' && v[n - 7] == 'f' && v[n - 6]
        == '-') {
        return false;
    }
    let e1 = find_run_end(v, n - 14, n - 9);
    let e2 = find_run_end(v, n - 5, n);
    proof {
        lemma_run_end(v@, n - 14, n - 9 as int);
        lemma_run_end(v@, n - 5, n as int);
    }
    if e1 != n - 9 || e2 != n {
        assert(!all_digits(v@, n - 14, n - 9) || !all_digits(v@, n - 5, n as int));
        return false;
    }
    let i = digits_value(v, n - 14, n - 9);
    let c = digits_value(v, n - 5, n);
    match (i, c) {
        (Some(i), Some(c)) => i > 0 && c > 0,
        _ => {
            proof {
                lemma_five_digits(v@, n - 14);
                lemma_five_digits(v@, n - 5);
            }
            false
        },
    }
}

proof fn lemma_five_digits(s: Seq<char>, from: int)
    requires
        0 <= from,
        from + 5 <= s.len(),
        all_digits(s, from, from + 5),
    ensures
        digits_val(s, from, from + 5) <= 99999,
{
    lemma_digits_bound(s, from, from + 5);
    reveal_with_fuel(pow10, 6);
}

proof fn lemma_digits_bound(s: Seq<char>, from: int, to: int)
    requires
        0 <= from <= to <= s.len(),
        all_digits(s, from, to),
    ensures
        digits_val(s, from, to) < pow10((to - from) as nat),
    decreases to - from,
{
    if from < to {
        lemma_digits_bound(s, from, to - 1);
        assert(crate::chars::is_digit(s[to - 1]));
    }
}

spec fn pow10(k: nat) -> nat
    decreases k,
{
    if k == 0 {
        1
    } else {
        10 * pow10((k - 1) as nat)
    }
}

fn find_version(v: &Vec<char>, n: usize) -> (r: Option<(usize, Version)>)
    requires
        n <= v@.len(),
    ensures
        match r {
            Some((p, ver)) => version_at(v@, n as int) == Some((p as int, ver)) && p < n,
            None => version_at(v@, n as int) is None,
        },
{
    let j = find_run_start(v, n);
    proof {
        lemma_run_start(v@, n as int);
    }
    if !(j < n && j >= 1 && v[j - 1] == '.') {
        return None;
    }
    let i = find_run_start(v, j - 1);
    proof {
        lemma_run_start(v@, j - 1);
    }
    if !(i < j - 1 && i >= 2 && v[i - 1] == 'v' && v[i - 2] == '-') {
        return None;
    }
    let major = digits_value(v, i, j - 1);
    let minor = digits_value(v, j, n);
    match (major, minor) {
        (Some(a), Some(b)) => Some((i - 2, Version { major: a, minor: b })),
        _ => None,
    }
}

fn is_size_letter_char(c: char) -> (r: bool)
    ensures
        r == is_size_letter(c),
{
    c == 'Q' || c == 'T' || c == 'B' || c == 'M' || c == 'K'
}

fn find_label_at(v: &Vec<char>, p: usize, n: usize) -> (r: Option<(SizeLabel, usize)>)
    requires
        p < n <= v@.len(),
    ensures
        match r {
            Some((lab, ft)) => label_at(v@, p as int, n as int) == Some((lab, ft as int)) && p < ft
                <= n,
            None => label_at(v@, p as int, n as int) is None,
        },
{
    if v[p] != '-' {
        return None;
    }
    let i0 = p + 1;
    let r1 = find_run_end(v, i0, n);
    proof {
        lemma_run_end(v@, i0 as int, n as int);
    }
    let has_e = r1 > i0 && r1 < n && v[r1] == 'x';
    let i = if has_e {
        r1 + 1
    } else {
        i0
    };
    let e = if has_e {
        digits_value(v, i0, r1)
    } else {
        Some(1u32)
    };
    let r2 = find_run_end(v, i, n);
    proof {
        lemma_run_end(v@, i as int, n as int);
    }
    if r2 == i {
        return None;
    }
    let a = digits_value(v, i, r2);
    let has_b = r2 < n && v[r2] == '.';
    let r3 = if has_b {
        find_run_end(v, r2 + 1, n)
    } else {
        r2
    };
    proof {
        if has_b {
            lemma_run_end(v@, r2 + 1, n as int);
        }
    }
    if has_b && r3 == r2 + 1 {
        return None;
    }
    let b = if has_b {
        digits_value(v, r2 + 1, r3)
    } else {
        Some(0u32)
    };
    if !(r3 < n && is_size_letter_char(v[r3])) {
        return None;
    }
    let ft = if r3 + 1 == n {
        n
    } else if v[r3 + 1] == '-' && r3 + 2 < n && all_word_chars(v, r3 + 2, n) {
        r3 + 2
    } else {
        return None;
    };
    match (e, a, b) {
        (Some(e), Some(a), Some(b)) => Some((SizeLabel { e, a, b, l: v[r3] }, ft)),
        _ => None,
    }
}

fn find_first_label(v: &Vec<char>, n: usize) -> (r: Option<(usize, SizeLabel, usize)>)
    requires
        n <= v@.len(),
    ensures
        match r {
            Some((p, lab, ft)) => first_label(v@, 0, n as int) == Some((p as int, lab, ft as int))
                && p < ft <= n,
            None => first_label(v@, 0, n as int) is None,
        },
{
    let mut p: usize = 0;
    while p < n
        invariant
            p <= n,
            n <= v@.len(),
            first_label(v@, 0, n as int) == first_label(v@, p as int, n as int),
        decreases n - p,
    {
        match find_label_at(v, p, n) {
            Some((lab, ft)) => {
                return Some((p, lab, ft));
            },
            None => {},
        }
        p += 1;
    }
    None
}

fn find_last_dash(v: &Vec<char>, n: usize) -> (r: Option<usize>)
    requires
        n <= v@.len(),
    ensures
        match r {
            Some(d) => last_dash(v@, n as int) == Some(d as int) && d < n,
            None => last_dash(v@, n as int) is None,
        },
{
    let mut k = n;
    while k > 0
        invariant
            k <= n,
            n <= v@.len(),
            last_dash(v@, n as int) == last_dash(v@, k as int),
        decreases k,
    {
        if v[k - 1] == '-' {
            return Some(k - 1);
        }
        k -= 1;
    }
    None
}

fn substring(s: &str, from: usize, to: usize) -> (r: String)
    requires
        from <= to <= s@.len(),
    ensures
        r@ == s@.subrange(from as int, to as int),
{
    String::from_str(s.substring_char(from, to))
}

impl GGufFileName {
    /// Splits a file name into its parts (see [`parse_name`]); fails when the
    /// name does not end in `.gguf`.
    pub fn try_from(name: &str) -> (r: Result<GGufFileName, GGufExtNotMatch>)
        ensures
            match r {
                Ok(f) => parse_name(name@) == Some(f@),
                Err(_) => parse_name(name@) is None,
            },
    {
        let v = chars_of(name);
        let ext = vec!['.', 'g', 'g', 'u', 'f'];
        assert(ext@ =~= gguf_ext());
        if !ends_with_at(&v, v.len(), &ext) {
            return Err(GGufExtNotMatch);
        }
        let n0 = v.len() - 5;
        let (n1, shard) = if has_shard_suffix(&v, n0) {
            let i = digits_value(&v, n0 - 14, n0 - 9);
            let c = digits_value(&v, n0 - 5, n0);
            proof {
                lemma_five_digits(v@, n0 - 14);
                lemma_five_digits(v@, n0 - 5);
            }
            (n0 - 15, Shard { index: i.unwrap(), count: c.unwrap() })
        } else {
            (n0, Shard { index: 1, count: 1 })
        };
        assert((n1 as int, shard) == strip_shard(v@));
        let vocab = vec!['-', 'v', 'o', 'c', 'a', 'b'];
        let lora = vec!['-', 'L', 'o', 'R', 'A'];
        assert(vocab@ =~= vocab_suffix());
        assert(lora@ =~= lora_suffix());
        let (n2, type_) = if ends_with_at(&v, n1, &vocab) {
            (n1 - 6, Type::Vocab)
        } else if ends_with_at(&v, n1, &lora) {
            (n1 - 5, Type::LoRA)
        } else {
            (n1, Type::Default)
        };
        assert((n2 as int, type_) == strip_type(v@, n1 as int));
        match find_last_dash(&v, n2) {
            None => {
                let r = GGufFileName {
                    base_name: substring(name, 0, n2),
                    size_label: None,
                    fine_tune: String::new(),
                    version: None,
                    encoding: None,
                    type_,
                    shard,
                };
                assert(r@.fine_tune =~= Seq::<char>::empty());
                Ok(r)
            },
            Some(d) => {
                let encoding = substring(name, d + 1, n2);
                let (h, version) = match find_version(&v, d) {
                    Some((p, ver)) => (p, Some(ver)),
                    None => (d, None),
                };
                match find_first_label(&v, h) {
                    Some((p, lab, ft)) => Ok(
                        GGufFileName {
                            base_name: substring(name, 0, p),
                            size_label: Some(lab),
                            fine_tune: substring(name, ft, h),
                            version,
                            encoding: Some(encoding),
                            type_,
                            shard,
                        },
                    ),
                    None => {
                        let r = GGufFileName {
                            base_name: substring(name, 0, h),
                            size_label: None,
                            fine_tune: String::new(),
                            version: None,
                            encoding: None,
                            type_,
                            shard,
                        };
                        assert(r@.fine_tune =~= Seq::<char>::empty());
                        Ok(r)
                    },
                }
            },
        }
    }
}


// ---- operations on names ----

/// The parts that shards of one file share: all but the shard.
pub open spec fn same_parts(a: NameView, b: NameView) -> bool {
    &&& a.base_name == b.base_name
    &&& a.size_label == b.size_label
    &&& a.fine_tune == b.fine_tune
    &&& a.version == b.version
    &&& a.encoding == b.encoding
    &&& a.type_ == b.type_
}

/// Whether `names` are distinct shards of one file: all share their parts and
/// their shard count, each index lies in `1..=count`, and no index repeats.
pub open spec fn shards_match(names: Seq<NameView>) -> bool {
    &&& names.len() > 0
    &&& forall|i: int|
        0 <= i < names.len() ==> 1 <= #[trigger] names[i].shard.index <= names[i].shard.count
    &&& forall|i: int|
        0 <= i < names.len() ==> #[trigger] same_parts(names[i], names[0])
            && names[i].shard.count == names[0].shard.count
    &&& forall|i: int, j: int|
        0 <= i < j < names.len() ==> #[trigger] names[i].shard.index != #[trigger] names[j].shard.index
}

/// The name with its shard replaced by `shard`.
pub open spec fn with_shard(v: NameView, shard: Shard) -> NameView {
    NameView { shard, ..v }
}

pub open spec fn views(names: Seq<GGufFileName>) -> Seq<NameView> {
    names.map_values(|n: GGufFileName| n@)
}

fn same_string(a: &String, b: &String) -> (r: bool)
    ensures
        r == (a@ == b@),
{
    a.eq(b)
}

fn same_opt_string(a: &Option<String>, b: &Option<String>) -> (r: bool)
    ensures
        r == (opt_view(*a) == opt_view(*b)),
{
    match (a, b) {
        (Some(x), Some(y)) => x.eq(y),
        (None, None) => true,
        _ => false,
    }
}

fn same_opt_label(a: Option<SizeLabel>, b: Option<SizeLabel>) -> (r: bool)
    ensures
        r == (a == b),
{
    match (a, b) {
        (Some(x), Some(y)) => x == y,
        (None, None) => true,
        _ => false,
    }
}

fn same_opt_version(a: Option<Version>, b: Option<Version>) -> (r: bool)
    ensures
        r == (a == b),
{
    match (a, b) {
        (Some(x), Some(y)) => x == y,
        (None, None) => true,
        _ => false,
    }
}

fn copy_opt_string(a: &Option<String>) -> (r: Option<String>)
    ensures
        opt_view(r) == opt_view(*a),
{
    match a {
        Some(x) => Some(x.clone()),
        None => None,
    }
}

impl Default for GGufFileName {
    fn default() -> (r: Self)
        ensures
            r@ == default_name(),
    {
        proof {
            reveal_strlit("model");
        }
        let r = GGufFileName {
            base_name: String::from_str("model"),
            size_label: None,
            fine_tune: String::new(),
            version: None,
            encoding: None,
            type_: Type::Default,
            shard: Shard { index: 1, count: 1 },
        };
        assert(r@.base_name =~= default_name().base_name);
        assert(r@.fine_tune =~= default_name().fine_tune);
        r
    }
}

impl GGufFileName {
    /// Merges the names of the shards of one file into the name of the whole
    /// file; `None` when the list is empty or the names are not distinct
    /// shards of one file.
    pub fn merge_shards(names: &[GGufFileName]) -> (r: Option<GGufFileName>)
        ensures
            match r {
                Some(m) => shards_match(views(names@)) && m@ == with_shard(
                    names@[0]@,
                    Shard::single(),
                ),
                None => !shards_match(views(names@)),
            },
    {
        let ghost vs = views(names@);
        if names.len() == 0 {
            return None;
        }
        let first = &names[0];
        let count = first.shard.count;
        assert(vs[0] == first@);
        if first.shard.index < 1 || first.shard.index > count {
            assert(!(1 <= vs[0].shard.index <= vs[0].shard.count));
            return None;
        }
        let mut seen: Vec<bool> = Vec::new();
        let mut k: u32 = 0;
        while k < count
            invariant
                k <= count,
                seen@.len() == k,
                forall|t: int| 0 <= t < k ==> !seen@[t],
            decreases count - k,
        {
            seen.push(false);
            k += 1;
        }
        seen.set((first.shard.index - 1) as usize, true);
        let mut j: usize = 1;
        while j < names.len()
            invariant
                1 <= j <= names@.len(),
                vs == views(names@),
                vs.len() == names@.len(),
                first == &names@[0],
                count == vs[0].shard.count,
                seen@.len() == count,
                forall|i: int| 0 <= i < j ==> 1 <= #[trigger] vs[i].shard.index <= vs[i].shard.count,
                forall|i: int|
                    0 <= i < j ==> #[trigger] same_parts(vs[i], vs[0]) && vs[i].shard.count
                        == count,
                forall|a: int, b: int|
                    0 <= a < b < j ==> #[trigger] vs[a].shard.index != #[trigger] vs[b].shard.index,
                forall|t: int|
                    0 <= t < count ==> (#[trigger] seen@[t] <==> exists|i: int|
                        0 <= i < j && vs[i].shard.index == t + 1),
            decreases names@.len() - j,
        {
            let name = &names[j];
            assert(vs[j as int] == name@);
            if !(same_string(&name.base_name, &first.base_name) && same_opt_label(
                name.size_label,
                first.size_label,
            ) && same_string(&name.fine_tune, &first.fine_tune) && same_opt_version(
                name.version,
                first.version,
            ) && same_opt_string(&name.encoding, &first.encoding) && name.type_ == first.type_
                && name.shard.count == count) {
                assert(!same_parts(vs[j as int], vs[0]) || vs[j as int].shard.count != count);
                return None;
            }
            assert(same_parts(vs[j as int], vs[0]) && vs[j as int].shard.count == count);
            if name.shard.index < 1 || name.shard.index > count {
                assert(!(1 <= vs[j as int].shard.index <= vs[j as int].shard.count));
                return None;
            }
            let t = (name.shard.index - 1) as usize;
            if seen[t] {
                let ghost i = choose|i: int| 0 <= i < j && vs[i].shard.index == t + 1;
                assert(vs[i].shard.index == vs[j as int].shard.index);
                assert(!(vs[i].shard.index != vs[j as int].shard.index));
                return None;
            }
            seen.set(t, true);
            let ghost j0 = j as int;
            j += 1;
            assert forall|i: int| 0 <= i < j implies #[trigger] same_parts(vs[i], vs[0])
                && vs[i].shard.count == count by {
                if i < j0 {
                    assert(same_parts(vs[i], vs[0]));
                }
            }
        }
        let r = GGufFileName {
            base_name: first.base_name.clone(),
            size_label: first.size_label,
            fine_tune: first.fine_tune.clone(),
            version: first.version,
            encoding: copy_opt_string(&first.encoding),
            type_: first.type_,
            shard: Shard { index: 1, count: 1 },
        };
        Some(r)
    }

    /// A copy of this name.
    pub fn to_owned(&self) -> (r: GGufFileName)
        ensures
            r@ == self@,
    {
        GGufFileName {
            base_name: self.base_name.clone(),
            size_label: self.size_label,
            fine_tune: self.fine_tune.clone(),
            version: self.version,
            encoding: copy_opt_string(&self.encoding),
            type_: self.type_,
            shard: self.shard,
        }
    }

    /// The shard's index counted from 0.
    pub fn shard_index(&self) -> (r: usize)
        requires
            self.shard.wf(),
        ensures
            r == self.shard.index - 1,
    {
        (self.shard.index - 1) as usize
    }

    /// The number of shards.
    pub fn shard_count(&self) -> (r: usize)
        ensures
            r == self.shard.count,
    {
        self.shard.count as usize
    }

    /// The name of the whole file, as one shard.
    pub fn into_single(self) -> (r: Self)
        ensures
            r@ == with_shard(self@, Shard::single()),
    {
        GGufFileName { shard: Shard { index: 1, count: 1 }, ..self }
    }

    /// The name of the first shard, from which [`GGufFileName::next`] walks all shards.
    pub fn iter_all(self) -> (r: Self)
        ensures
            r@ == with_shard(self@, (Shard { index: 1, ..self.shard })),
    {
        GGufFileName { shard: Shard { index: 1, count: self.shard.count }, ..self }
    }

    /// The name of the first of `n` shards.
    pub fn split_n(self, n: usize) -> (r: Self)
        requires
            1 <= n <= u32::MAX,
        ensures
            r@ == with_shard(self@, (Shard { index: 1, count: n as u32 })),
    {
        GGufFileName { shard: Shard { index: 1, count: n as u32 }, ..self }
    }

    /// While the index has not passed the count: this shard's name, and
    /// steps to the next shard.
    pub fn next(&mut self) -> (r: Option<GGufFileName>)
        requires
            old(self).shard.index <= old(self).shard.count ==> old(self).shard.index < u32::MAX,
        ensures
            old(self).shard.index <= old(self).shard.count ==> (r matches Some(n) && n@ == old(
                self,
            )@),
            old(self).shard.index <= old(self).shard.count ==> final(self)@ == with_shard(
                old(self)@,
                (Shard { index: (old(self).shard.index + 1) as u32, ..old(self).shard }),
            ),
            old(self).shard.index > old(self).shard.count ==> r is None,
            old(self).shard.index > old(self).shard.count ==> final(self)@ == old(self)@,
    {
        if self.shard.index <= self.shard.count {
            let ans = self.to_owned();
            self.shard.index = self.shard.index + 1;
            Some(ans)
        } else {
            None
        }
    }
}


// ---- the text of a name ----

pub open spec fn size_label_text(l: SizeLabel) -> Seq<char> {
    (if l.e == 1 {
        Seq::empty()
    } else {
        decimal(l.e as nat).push('x')
    }) + decimal(l.a as nat) + (if l.b == 0 {
        Seq::empty()
    } else {
        seq!['.'] + decimal(l.b as nat)
    }) + seq![l.l]
}

pub open spec fn version_text(v: Version) -> Seq<char> {
    seq!['v'] + decimal(v.major as nat) + seq!['.'] + decimal(v.minor as nat)
}

pub open spec fn type_text(t: Type) -> Seq<char> {
    match t {
        Type::Default => Seq::empty(),
        Type::LoRA => lora_suffix(),
        Type::Vocab => vocab_suffix(),
    }
}

/// Nothing for a single shard, else `-NNNNN-of-NNNNN`.
pub open spec fn shard_text(s: Shard) -> Seq<char> {
    if s.count == 1 {
        Seq::empty()
    } else {
        seq!['-'] + padded(s.index as nat, 5, '0') + seq!['-', 'o', 'f', '-'] + padded(
            s.count as nat,
            5,
            '0',
        )
    }
}

pub open spec fn dash_part(present: bool, t: Seq<char>) -> Seq<char> {
    if present {
        seq!['-'] + t
    } else {
        Seq::empty()
    }
}

/// The file name that `v` stands for.
pub open spec fn name_text(v: NameView) -> Seq<char> {
    v.base_name + dash_part(v.size_label is Some, size_label_text(v.size_label->0)) + dash_part(
        v.fine_tune.len() > 0,
        v.fine_tune,
    ) + dash_part(v.version is Some, version_text(v.version->0)) + dash_part(
        v.encoding is Some,
        v.encoding->0,
    ) + type_text(v.type_) + shard_text(v.shard) + gguf_ext()
}

impl SizeLabel {
    /// The label as written in a file name, such as `2x7.5B`.
    pub fn to_string(&self) -> (r: String)
        ensures
            r@ == size_label_text(*self),
    {
        proof {
            reveal_strlit("x");
            reveal_strlit(".");
        }
        let mut r = String::new();
        if self.e != 1 {
            r = decimal_string(self.e as u64);
            r.append("x");
        }
        r.append(decimal_string(self.a as u64).as_str());
        if self.b != 0 {
            r.append(".");
            r.append(decimal_string(self.b as u64).as_str());
        }
        push_char(&mut r, self.l);
        assert(r@ =~= size_label_text(*self));
        r
    }
}

impl Version {
    /// The version as written in a file name, such as `v1.0`.
    pub fn to_string(&self) -> (r: String)
        ensures
            r@ == version_text(*self),
    {
        proof {
            reveal_strlit("v");
            reveal_strlit(".");
        }
        let mut r = String::from_str("v");
        r.append(decimal_string(self.major as u64).as_str());
        r.append(".");
        r.append(decimal_string(self.minor as u64).as_str());
        assert(r@ =~= version_text(*self));
        r
    }
}

impl Type {
    /// The suffix that marks the type in a file name.
    pub fn to_string(&self) -> (r: String)
        ensures
            r@ == type_text(*self),
    {
        proof {
            reveal_strlit("-LoRA");
            reveal_strlit("-vocab");
        }
        match self {
            Type::Default => String::new(),
            Type::LoRA => String::from_str("-LoRA"),
            Type::Vocab => String::from_str("-vocab"),
        }
    }
}

impl Shard {
    /// The shard suffix of a file name.
    pub fn to_string(&self) -> (r: String)
        ensures
            r@ == shard_text(*self),
    {
        proof {
            reveal_strlit("-");
            reveal_strlit("-of-");
        }
        if self.count == 1 {
            String::new()
        } else {
            let mut r = String::from_str("-");
            r.append(padded_string(self.index as u64, 5, '0').as_str());
            r.append("-of-");
            r.append(padded_string(self.count as u64, 5, '0').as_str());
            assert(r@ =~= shard_text(*self));
            r
        }
    }
}

impl GGufFileName {
    /// The file name, `.gguf` included.
    pub fn to_string(&self) -> (r: String)
        ensures
            r@ == name_text(self@),
    {
        proof {
            reveal_strlit("-");
            reveal_strlit(".gguf");
        }
        let ghost v = self@;
        let mut r = self.base_name.clone();
        if let Some(l) = &self.size_label {
            r.append("-");
            r.append(l.to_string().as_str());
        }
        let ghost p1 = v.base_name + dash_part(v.size_label is Some, size_label_text(v.size_label->0));
        assert(r@ =~= p1);
        if self.fine_tune.as_str().unicode_len() > 0 {
            r.append("-");
            r.append(self.fine_tune.as_str());
        }
        let ghost p2 = p1 + dash_part(v.fine_tune.len() > 0, v.fine_tune);
        assert(r@ =~= p2);
        if let Some(ver) = &self.version {
            r.append("-");
            r.append(ver.to_string().as_str());
        }
        let ghost p3 = p2 + dash_part(v.version is Some, version_text(v.version->0));
        assert(r@ =~= p3);
        if let Some(e) = &self.encoding {
            r.append("-");
            r.append(e.as_str());
        }
        let ghost p4 = p3 + dash_part(v.encoding is Some, v.encoding->0);
        assert(r@ =~= p4);
        r.append(self.type_.to_string().as_str());
        r.append(self.shard.to_string().as_str());
        r.append(".gguf");
        assert(r@ =~= name_text(self@));
        r
    }
}

/// Relies on `String::push`: the character is appended at the end.
#[verifier::external_body]
fn push_char(s: &mut String, c: char)
    ensures
        final(s)@ == old(s)@.push(c),
{
    s.push(c)
}



/// The name used where no better one is known: `model.gguf`.
pub open spec fn default_name() -> NameView {
    NameView {
        base_name: seq!['m', 'o', 'd', 'e', 'l'],
        size_label: None,
        fine_tune: Seq::empty(),
        version: None,
        encoding: None,
        type_: Type::Default,
        shard: Shard::single(),
    }
}

pub open spec fn all_parse(files: Seq<String>) -> bool {
    forall|i: int| 0 <= i < files.len() ==> #[trigger] parse_name(files[i]@) is Some
}

pub open spec fn parsed(files: Seq<String>) -> Seq<NameView> {
    files.map_values(|f: String| parse_name(f@)->0)
}

/// The name of the file that the shards named `files` make up: their merged
/// name when every one parses and they are distinct shards of one file, else
/// the default name.
pub fn merge_shards(files: &Vec<String>) -> (r: GGufFileName)
    ensures
        r@ == (if all_parse(files@) && shards_match(parsed(files@)) {
            with_shard(parsed(files@)[0], Shard::single())
        } else {
            default_name()
        }),
{
    let mut names: Vec<GGufFileName> = Vec::new();
    let mut k: usize = 0;
    while k < files.len()
        invariant
            k <= files@.len(),
            names@.len() == k,
            forall|i: int| 0 <= i < k ==> parse_name(files@[i]@) == Some(#[trigger] names@[i]@),
        decreases files@.len() - k,
    {
        match GGufFileName::try_from(files[k].as_str()) {
            Ok(n) => names.push(n),
            Err(_) => {
                assert(!all_parse(files@)) by {
                    assert(parse_name(files@[k as int]@) is None);
                }
                return GGufFileName::default();
            },
        }
        k += 1;
    }
    assert(all_parse(files@)) by {
        assert forall|i: int| 0 <= i < files@.len() implies #[trigger] parse_name(files@[i]@) is Some by {
            assert(parse_name(files@[i]@) == Some(names@[i]@));
        }
    }
    assert(views(names@) =~= parsed(files@)) by {
        assert forall|i: int| 0 <= i < files@.len() implies views(names@)[i] == parsed(files@)[i] by {
            assert(parse_name(files@[i]@) == Some(names@[i]@));
        }
    }
    match GGufFileName::merge_shards(names.as_slice()) {
        Some(m) => m,
        None => GGufFileName::default(),
    }
}

} // verus!
