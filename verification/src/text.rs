//! Byte-level helpers: the framing bytes, searching, comparing, and
//! decimal numbers written as ASCII digits.

use vstd::prelude::*;

verus! {

/// Frame terminator.
pub const NUL: u8 = 0;

/// Line terminator.
pub const LF: u8 = 10;

/// Carriage return; never significant for framing, always escaped in headers.
pub const CR: u8 = 13;

/// Separator between a header's name and its value.
pub const COLON: u8 = 58;

/// Introduces an escape sequence inside a header.
pub const BACKSLASH: u8 = 92;

/// `i` is the position of the first `target` in `s`.
pub open spec fn is_first_index(s: Seq<u8>, target: u8, i: int) -> bool {
    &&& 0 <= i < s.len()
    &&& s[i] == target
    &&& forall|j: int| 0 <= j < i ==> s[j] != target
}

/// What `index_of_first` yields, in terms of `is_first_index`.
pub proof fn lemma_first_index(s: Seq<u8>, target: u8)
    ensures
        match s.index_of_first(target) {
            Some(i) => is_first_index(s, target, i),
            None => forall|j: int| 0 <= j < s.len() ==> s[j] != target,
        },
{
    s.index_of_first_ensures(target);
    if s.index_of_first(target) is None {
        assert forall|j: int| 0 <= j < s.len() implies s[j] != target by {
            if s[j] == target {
                assert(s.contains(target));
            }
        }
    }
}

/// A position with the first-occurrence property is the one that
/// `index_of_first` yields.
pub proof fn lemma_first_index_found(s: Seq<u8>, target: u8, i: int)
    requires
        is_first_index(s, target, i),
    ensures
        s.index_of_first(target) == Some(i),
{
    lemma_first_index(s, target);
}

/// A sequence without `target` has no first occurrence of it.
pub proof fn lemma_first_index_absent(s: Seq<u8>, target: u8)
    requires
        forall|j: int| 0 <= j < s.len() ==> s[j] != target,
    ensures
        s.index_of_first(target) is None,
{
    lemma_first_index(s, target);
}

/// Position of the first `target` in `s`, if any.
pub fn find_byte(s: &[u8], target: u8) -> (r: Option<usize>)
    ensures
        match r {
            Some(i) => s@.index_of_first(target) == Some(i as int),
            None => s@.index_of_first(target) is None,
        },
{
    let mut i: usize = 0;
    while i < s.len()
        invariant
            0 <= i <= s@.len(),
            forall|j: int| 0 <= j < i ==> s@[j] != target,
        decreases s@.len() - i,
    {
        if s[i] == target {
            proof {
                lemma_first_index_found(s@, target, i as int);
            }
            return Some(i);
        }
        i += 1;
    }
    proof {
        lemma_first_index_absent(s@, target);
    }
    None
}

/// Whether two byte strings hold the same bytes.
pub fn bytes_eq(a: &[u8], b: &[u8]) -> (r: bool)
    ensures
        r == (a@ == b@),
{
    if a.len() != b.len() {
        return false;
    }
    let mut i: usize = 0;
    while i < a.len()
        invariant
            0 <= i <= a@.len(),
            a@.len() == b@.len(),
            forall|j: int| 0 <= j < i ==> a@[j] == b@[j],
        decreases a@.len() - i,
    {
        if a[i] != b[i] {
            return false;
        }
        i += 1;
    }
    assert(a@ =~= b@);
    true
}

/// An owned copy of a byte string.
pub fn copy_bytes(s: &[u8]) -> (v: Vec<u8>)
    ensures
        v@ == s@,
{
    let mut v: Vec<u8> = Vec::new();
    let mut i: usize = 0;
    while i < s.len()
        invariant
            0 <= i <= s@.len(),
            v@ == s@.take(i as int),
        decreases s@.len() - i,
    {
        v.push(s[i]);
        assert(v@ =~= s@.take(i + 1));
        i += 1;
    }
    assert(s@.take(i as int) =~= s@);
    v
}

/// Appends `s` to `out`.
pub fn push_bytes(out: &mut Vec<u8>, s: &[u8])
    ensures
        final(out)@ == old(out)@ + s@,
{
    let mut i: usize = 0;
    while i < s.len()
        invariant
            0 <= i <= s@.len(),
            out@ == old(out)@ + s@.take(i as int),
        decreases s@.len() - i,
    {
        out.push(s[i]);
        assert(out@ =~= old(out)@ + s@.take(i + 1));
        i += 1;
    }
    assert(s@.take(i as int) =~= s@);
}

/// ASCII decimal digit.
pub open spec fn is_digit(b: u8) -> bool {
    48 <= b <= 57
}

/// The number a digit stands for; zero for any other byte.
pub open spec fn digit_value(b: u8) -> nat {
    if is_digit(b) {
        (b - 48) as nat
    } else {
        0
    }
}

/// A non-empty run of ASCII digits.
pub open spec fn is_decimal(s: Seq<u8>) -> bool {
    &&& s.len() > 0
    &&& forall|i: int| 0 <= i < s.len() ==> is_digit(#[trigger] s[i])
}

/// The number that the digits of `s` denote, most significant first.
pub open spec fn decimal_value(s: Seq<u8>) -> nat
    decreases s.len(),
{
    if s.len() == 0 {
        0
    } else {
        decimal_value(s.drop_last()) * 10 + digit_value(s.last())
    }
}

/// The number written in `s`, when `s` is a decimal numeral no larger than `max`.
pub open spec fn decimal_of(s: Seq<u8>, max: nat) -> Option<nat> {
    if is_decimal(s) && decimal_value(s) <= max {
        Some(decimal_value(s))
    } else {
        None
    }
}

/// The shortest decimal numeral for `n`.
pub open spec fn decimal_digits(n: nat) -> Seq<u8>
    decreases n,
{
    if n < 10 {
        seq![(48 + n) as u8]
    } else {
        decimal_digits(n / 10).push((48 + n % 10) as u8)
    }
}

/// A prefix of a numeral never denotes more than the whole numeral.
pub proof fn lemma_decimal_value_prefix(s: Seq<u8>, k: int)
    requires
        0 <= k <= s.len(),
    ensures
        decimal_value(s.take(k)) <= decimal_value(s),
    decreases s.len() - k,
{
    if k == s.len() {
        assert(s.take(k) =~= s);
    } else {
        assert(s.take(k + 1).drop_last() =~= s.take(k));
        lemma_decimal_value_prefix(s, k + 1);
    }
}

/// Writing a number and reading it back gives the number.
pub proof fn lemma_decimal_round_trip(n: nat)
    ensures
        is_decimal(decimal_digits(n)),
        decimal_value(decimal_digits(n)) == n,
    decreases n,
{
    if n < 10 {
        let s = decimal_digits(n);
        assert(s.drop_last() =~= Seq::<u8>::empty());
        assert(decimal_value(s.drop_last()) == 0);
    } else {
        lemma_decimal_round_trip(n / 10);
        let s = decimal_digits(n);
        assert(s.drop_last() =~= decimal_digits(n / 10));
    }
}

/// Reads a decimal numeral no larger than `max`.
pub fn parse_decimal(s: &[u8], max: u64) -> (r: Option<u64>)
    ensures
        match r {
            Some(n) => decimal_of(s@, max as nat) == Some(n as nat),
            None => decimal_of(s@, max as nat) is None,
        },
{
    if s.len() == 0 {
        return None;
    }
    let mut acc: u64 = 0;
    let mut i: usize = 0;
    while i < s.len()
        invariant
            0 <= i <= s@.len(),
            forall|j: int| 0 <= j < i ==> is_digit(#[trigger] s@[j]),
            acc as nat == decimal_value(s@.take(i as int)),
            acc <= max,
        decreases s@.len() - i,
    {
        let b: u8 = s[i];
        if b < 48 || b > 57 {
            assert(!is_digit(s@[i as int]));
            return None;
        }
        let d: u64 = (b - 48) as u64;
        proof {
            assert(s@.take(i + 1).drop_last() =~= s@.take(i as int));
            assert(decimal_value(s@.take(i + 1)) == acc * 10 + d);
        }
        if d > max || acc > (max - d) / 10 {
            proof {
                lemma_decimal_value_prefix(s@, i + 1);
            }
            return None;
        }
        acc = acc * 10 + d;
        i += 1;
    }
    assert(s@.take(i as int) =~= s@);
    Some(acc)
}

/// Appends the shortest decimal numeral for `n` to `out`.
pub fn push_decimal(out: &mut Vec<u8>, n: u64)
    ensures
        final(out)@ == old(out)@ + decimal_digits(n as nat),
    decreases n,
{
    if n < 10 {
        out.push(48 + n as u8);
        assert(out@ =~= old(out)@ + decimal_digits(n as nat));
    } else {
        push_decimal(out, n / 10);
        out.push(48 + (n % 10) as u8);
        assert(out@ =~= old(out)@ + decimal_digits(n as nat));
    }
}

} // verus!
