//! Small text utilities shared by the library: exact and case-insensitive
//! string comparison, decimal rendering of integers, and a substring
//! predicate with the lemmas the metrics snapshot needs.

use vstd::prelude::*;
use vstd::string::StrSliceExecFns;
use vstd::string::StringExecFns;

verus! {

/// The decimal digit character for `d`, meaningful for `0 <= d < 10`.
pub open spec fn digit_char(d: int) -> char {
    if d == 0 {
        '0'
    } else if d == 1 {
        '1'
    } else if d == 2 {
        '2'
    } else if d == 3 {
        '3'
    } else if d == 4 {
        '4'
    } else if d == 5 {
        '5'
    } else if d == 6 {
        '6'
    } else if d == 7 {
        '7'
    } else if d == 8 {
        '8'
    } else {
        '9'
    }
}

/// Decimal rendering of a nonnegative integer, most significant digit first,
/// with no leading zeros (a single `'0'` for zero).
pub open spec fn dec_spec(n: int) -> Seq<char>
    recommends
        n >= 0,
    decreases n,
{
    if n < 10 {
        seq![digit_char(n)]
    } else {
        dec_spec(n / 10).push(digit_char(n % 10))
    }
}

fn digit_str(d: u64) -> (r: &'static str)
    requires
        d < 10,
    ensures
        r@ =~= seq![digit_char(d as int)],
{
    proof {
        reveal_strlit("0");
        reveal_strlit("1");
        reveal_strlit("2");
        reveal_strlit("3");
        reveal_strlit("4");
        reveal_strlit("5");
        reveal_strlit("6");
        reveal_strlit("7");
        reveal_strlit("8");
        reveal_strlit("9");
    }
    if d == 0 {
        "0"
    } else if d == 1 {
        "1"
    } else if d == 2 {
        "2"
    } else if d == 3 {
        "3"
    } else if d == 4 {
        "4"
    } else if d == 5 {
        "5"
    } else if d == 6 {
        "6"
    } else if d == 7 {
        "7"
    } else if d == 8 {
        "8"
    } else {
        "9"
    }
}

/// Renders `n` in decimal.
pub fn u64_to_string(n: u64) -> (r: String)
    ensures
        r@ == dec_spec(n as int),
    decreases n,
{
    if n < 10 {
        String::from_str(digit_str(n))
    } else {
        let mut s = u64_to_string(n / 10);
        let d = digit_str(n % 10);
        s.append(d);
        proof {
            assert(dec_spec((n / 10) as int).push(digit_char((n % 10) as int)) =~= dec_spec(
                (n / 10) as int,
            ) + seq![digit_char((n % 10) as int)]);
        }
        s
    }
}

/// Exact string equality, decided character by character.
pub fn str_eq(a: &str, b: &str) -> (r: bool)
    ensures
        r == (a@ == b@),
{
    let alen = a.unicode_len();
    let blen = b.unicode_len();
    if alen != blen {
        return false;
    }
    let mut i: usize = 0;
    while i < alen
        invariant
            i <= alen,
            alen == a@.len(),
            blen == b@.len(),
            alen == blen,
            forall|j: int| 0 <= j < i ==> a@[j] == b@[j],
        decreases alen - i,
    {
        let ca = a.get_char(i);
        let cb = b.get_char(i);
        if ca != cb {
            return false;
        }
        i += 1;
    }
    proof {
        assert(a@ =~= b@);
    }
    true
}

/// Whether `x` and `y` are the same character up to ASCII case.
pub open spec fn ci_char_eq(x: char, y: char) -> bool {
    x as int == y as int || (('A' as int) <= x as int <= ('Z' as int) && y as int == x as int
        + 32) || (('A' as int) <= y as int <= ('Z' as int) && x as int == y as int + 32)
}

/// Whether `a` and `b` are equal up to ASCII case, character by character.
pub open spec fn ci_seq_eq(a: Seq<char>, b: Seq<char>) -> bool {
    a.len() == b.len() && forall|i: int| 0 <= i < a.len() ==> ci_char_eq(a[i], b[i])
}

fn ci_char_eq_exec(x: char, y: char) -> (r: bool)
    ensures
        r == ci_char_eq(x, y),
{
    let xi = x as u32;
    let yi = y as u32;
    xi == yi || (65 <= xi && xi <= 90 && yi == xi + 32) || (65 <= yi && yi <= 90 && xi == yi + 32)
}

/// String equality up to ASCII case.
pub fn str_ci_eq(a: &str, b: &str) -> (r: bool)
    ensures
        r == ci_seq_eq(a@, b@),
{
    let alen = a.unicode_len();
    let blen = b.unicode_len();
    if alen != blen {
        return false;
    }
    let mut i: usize = 0;
    while i < alen
        invariant
            i <= alen,
            alen == a@.len(),
            blen == b@.len(),
            alen == blen,
            forall|j: int| 0 <= j < i ==> ci_char_eq(a@[j], b@[j]),
        decreases alen - i,
    {
        let ca = a.get_char(i);
        let cb = b.get_char(i);
        if !ci_char_eq_exec(ca, cb) {
            return false;
        }
        i += 1;
    }
    true
}

/// Whether `needle` occurs contiguously somewhere in `hay`.
pub open spec fn contains_seq(hay: Seq<char>, needle: Seq<char>) -> bool {
    exists|i: int|
        0 <= i && i + needle.len() <= hay.len() && #[trigger] hay.subrange(i, i + needle.len())
            == needle
}

/// A concatenation contains its right part.
pub proof fn lemma_contains_concat_right(a: Seq<char>, b: Seq<char>)
    ensures
        contains_seq(a + b, b),
{
    let i = a.len() as int;
    assert((a + b).subrange(i, i + b.len()) =~= b);
}

/// Whatever the left part contains, a concatenation contains too.
pub proof fn lemma_contains_concat_left(a: Seq<char>, b: Seq<char>, needle: Seq<char>)
    requires
        contains_seq(a, needle),
    ensures
        contains_seq(a + b, needle),
{
    let i = choose|i: int|
        0 <= i && i + needle.len() <= a.len() && #[trigger] a.subrange(i, i + needle.len())
            == needle;
    assert((a + b).subrange(i, i + needle.len()) =~= a.subrange(i, i + needle.len()));
}

} // verus!
